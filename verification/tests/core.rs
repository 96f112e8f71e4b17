use genos::abi::{BootInfo, BOOT_INFO_MAGIC, BOOT_INFO_VERSION};
use genos::exception::{has_error_code, ist_index, pic_eoi_policy, process_local};
use genos::protection::{
    clear_alignment_check, Features, CR0_WP, CR4_SMAP, CR4_SMEP, EFER_NXE, RFLAGS_AC,
};
use genos::recovery::{boundary_is_minimal, parse, RecoveryCommand};
use genos::request::RequestSequence;
use genos::serial_transport::{wait_ready, TRANSMIT_POLLS};

#[test]
fn boot_info_defaults_are_versioned() {
    let info = BootInfo::empty();
    assert_eq!(info.magic, BOOT_INFO_MAGIC);
    assert_eq!(info.version, BOOT_INFO_VERSION);
}

#[test]
fn cmdline_is_bounded() {
    let mut info = BootInfo::empty();
    info.set_cmdline("root=initrd console=fb");
    assert_eq!(info.cmdline_len, 22);
    assert_eq!(&info.cmdline[..4], b"root");
}

#[test]
fn long_cmdline_is_cut_at_capacity() {
    let mut info = BootInfo::empty();
    let long = "x".repeat(300);
    info.set_cmdline(&long);
    assert_eq!(info.cmdline_len, 128);
    assert!(info.cmdline.iter().all(|b| *b == b'x'));
}

#[test]
fn request_ids_are_nonzero_and_monotonic() {
    let mut sequence = RequestSequence::new();
    assert_eq!(sequence.allocate(), Some(1));
    assert_eq!(sequence.allocate(), Some(2));
    assert_eq!(sequence.allocate(), Some(3));
}

#[test]
fn exhausted_sequence_never_wraps_or_reuses_an_id() {
    let mut sequence = RequestSequence { next: u64::MAX };
    assert_eq!(sequence.allocate(), None);
    assert_eq!(sequence.allocate(), None);
}

#[test]
fn recovery_surface_contains_only_boot_diagnostics_and_power_controls() {
    assert!(boundary_is_minimal());
    assert_eq!(parse("  status  "), RecoveryCommand::Status);
    assert_eq!(parse("status now"), RecoveryCommand::Unknown);
}

#[test]
fn normal_shell_commands_are_not_kernel_commands() {
    for command in [
        "clear", "ls", "cat", "stat", "touch", "write", "append", "mkdir", "rm", "run", "ps",
        "kill", "wait", "echo", "uname",
    ] {
        assert_eq!(parse(command), RecoveryCommand::Unknown, "{command}");
    }
}

#[test]
fn recovery_trims_unicode_white_space() {
    assert_eq!(parse("\u{a0}mem\t\n"), RecoveryCommand::Memory);
    assert_eq!(parse("reboot"), RecoveryCommand::Reboot);
    assert_eq!(parse("shutdown"), RecoveryCommand::Shutdown);
    assert_eq!(parse("help"), RecoveryCommand::Help);
}

#[test]
fn required_and_optional_cpu_features_have_independent_bits() {
    for nx in [false, true] {
        for smep in [false, true] {
            for smap in [false, true] {
                let features = Features::from_cpuid(
                    u32::from(nx) << 20,
                    (u32::from(smep) << 7) | (u32::from(smap) << 20),
                );
                assert_eq!(features, Features { nx, smep, smap });
                assert_eq!(features.verified(EFER_NXE, CR0_WP, features.cr4_bits()), nx);
                assert!(!features.verified(0, CR0_WP, features.cr4_bits()));
                assert!(!features.verified(EFER_NXE, 0, features.cr4_bits()));
                if smep {
                    assert!(!features.verified(EFER_NXE, CR0_WP, CR4_SMAP));
                }
                if smap {
                    assert!(!features.verified(EFER_NXE, CR0_WP, CR4_SMEP));
                }
            }
        }
    }
}

#[test]
fn ac_mask_preserves_interrupt_direction_and_arithmetic_flags() {
    assert_eq!(0x60246 & !RFLAGS_AC, 0x20246);
    assert_eq!(clear_alignment_check(0x60246), 0x20246);
}

#[test]
fn stuck_uart_exhausts_exact_budget() {
    let mut calls = 0;
    assert!(!wait_ready(|| {
        calls += 1;
        false
    }));
    assert_eq!(calls, TRANSMIT_POLLS);
}

#[test]
fn readiness_finishes_without_consuming_the_remaining_budget() {
    let mut calls = 0;
    assert!(wait_ready(|| {
        calls += 1;
        calls == 3
    }));
    assert_eq!(calls, 3);
}

#[test]
fn exception_entry_policies() {
    let pushing: Vec<u64> = (0..64).filter(|v| has_error_code(*v)).collect();
    assert_eq!(pushing, vec![8, 10, 11, 12, 13, 14, 17, 21, 29, 30]);
    assert!(process_local(14, 0x23));
    assert!(!process_local(14, 0x08));
    assert!(!process_local(8, 0x23));
    assert!(!process_local(2, 0x23));
    assert_eq!(ist_index(8), 2);
    assert_eq!(ist_index(2), 3);
    assert_eq!(ist_index(18), 4);
    assert_eq!(ist_index(1), 5);
    assert_eq!(ist_index(14), 1);
    assert_eq!(pic_eoi_policy(7, false), (false, false));
    assert_eq!(pic_eoi_policy(7, true), (true, false));
    assert_eq!(pic_eoi_policy(15, false), (true, false));
    assert_eq!(pic_eoi_policy(12, true), (true, true));
    assert_eq!(pic_eoi_policy(16, true), (false, false));
}
