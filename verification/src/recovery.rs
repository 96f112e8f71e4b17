//! The fail-closed emergency console: boot diagnostics and power control only.
use vstd::prelude::*;
use crate::strings::{str_equal, trim, trim_str};

verus! {

#[derive(Clone, Copy, Debug, PartialEq, Eq, Structural)]
pub enum RecoveryCommand {
    Help,
    Status,
    Memory,
    Reboot,
    Shutdown,
    Unknown,
}

/// The command named by an already trimmed line.
pub open spec fn classify(t: Seq<char>) -> RecoveryCommand {
    if t == "help"@ {
        RecoveryCommand::Help
    } else if t == "status"@ {
        RecoveryCommand::Status
    } else if t == "mem"@ {
        RecoveryCommand::Memory
    } else if t == "reboot"@ {
        RecoveryCommand::Reboot
    } else if t == "shutdown"@ {
        RecoveryCommand::Shutdown
    } else {
        RecoveryCommand::Unknown
    }
}

/// Matches the whole line, ignoring surrounding white space.
pub fn parse(command: &str) -> (r: RecoveryCommand)
    ensures
        r == classify(trim(command@)),
{
    let t = trim_str(command);
    if str_equal(t, "help") {
        RecoveryCommand::Help
    } else if str_equal(t, "status") {
        RecoveryCommand::Status
    } else if str_equal(t, "mem") {
        RecoveryCommand::Memory
    } else if str_equal(t, "reboot") {
        RecoveryCommand::Reboot
    } else if str_equal(t, "shutdown") {
        RecoveryCommand::Shutdown
    } else {
        RecoveryCommand::Unknown
    }
}

/// The ordinary shell commands that the recovery console must refuse.
pub open spec fn refused_commands() -> Seq<Seq<char>> {
    seq![
        "clear"@, "ls"@, "cat"@, "stat"@, "touch"@, "write"@, "append"@, "mkdir"@, "rm"@,
        "run"@, "ps"@, "kill"@, "wait"@,
    ]
}

/// The five recovery commands parse as themselves and every ordinary shell
/// command is unknown.
pub open spec fn spec_boundary_is_minimal() -> bool {
    &&& classify(trim("help"@)) == RecoveryCommand::Help
    &&& classify(trim("status"@)) == RecoveryCommand::Status
    &&& classify(trim("mem"@)) == RecoveryCommand::Memory
    &&& classify(trim("reboot"@)) == RecoveryCommand::Reboot
    &&& classify(trim("shutdown"@)) == RecoveryCommand::Shutdown
    &&& forall|i: int|
        0 <= i < refused_commands().len() ==> classify(trim(#[trigger] refused_commands()[i]))
            == RecoveryCommand::Unknown
}

pub fn boundary_is_minimal() -> (r: bool)
    ensures
        r == spec_boundary_is_minimal(),
{
    let known = matches!(parse("help"), RecoveryCommand::Help) && matches!(
        parse("status"),
        RecoveryCommand::Status
    ) && matches!(parse("mem"), RecoveryCommand::Memory) && matches!(
        parse("reboot"),
        RecoveryCommand::Reboot
    ) && matches!(parse("shutdown"), RecoveryCommand::Shutdown);
    let refused = [
        "clear",
        "ls",
        "cat",
        "stat",
        "touch",
        "write",
        "append",
        "mkdir",
        "rm",
        "run",
        "ps",
        "kill",
        "wait",
    ];
    let ghost expected = refused_commands();
    assert(refused@.len() == 13);
    assert(forall|i: int| 0 <= i < 13 ==> (#[trigger] refused@[i])@ == expected[i]);
    let mut all = true;
    let mut i: usize = 0;
    while i < 13
        invariant
            i <= 13,
            refused@.len() == 13,
            forall|k: int| 0 <= k < 13 ==> (#[trigger] refused@[k])@ == expected[k],
            expected == refused_commands(),
            all == (forall|k: int|
                0 <= k < i ==> classify(trim(#[trigger] expected[k])) == RecoveryCommand::Unknown),
        decreases 13 - i,
    {
        let unknown = matches!(parse(refused[i]), RecoveryCommand::Unknown);
        all = all && unknown;
        i += 1;
    }
    known && all
}

} // verus!
