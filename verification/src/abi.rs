//! The boot-information record and the user/kernel ABI shared by every
//! component of the system.
use vstd::prelude::*;
use vstd::string::StringSliceAdditionalSpecFns;

verus! {

pub const BOOT_INFO_MAGIC: u64 = 0x4745_4e4f_535f_4249;
pub const BOOT_INFO_VERSION: u32 = 1;
pub const BOOTLOADER_VERSION: u32 = 1;
pub const MAX_MEMORY_REGIONS: usize = 256;
pub const MAX_CMDLINE_LEN: usize = 128;
pub const USER_ABI_VERSION: u64 = 17;
pub const USER_SYSCALL_PING: u64 = 0;
pub const USER_SYSCALL_ABI_VERSION: u64 = 1;
pub const USER_SYSCALL_EXIT: u64 = 2;
pub const USER_SYSCALL_YIELD: u64 = 3;
pub const USER_SYSCALL_REPORT: u64 = 4;
pub const USER_SYSCALL_WRITE: u64 = 5;
pub const USER_SYSCALL_SLEEP: u64 = 6;
pub const USER_SYSCALL_SEND: u64 = 7;
pub const USER_SYSCALL_RECEIVE: u64 = 8;
pub const USER_SYSCALL_WAIT_CHILD: u64 = 9;
pub const USER_SYSCALL_SYSTEM_INFO: u64 = 10;
pub const USER_SYSCALL_READ_FILE: u64 = 11;
pub const USER_SYSCALL_OPEN_FILE: u64 = 12;
pub const USER_SYSCALL_READ_HANDLE: u64 = 13;
pub const USER_SYSCALL_STAT_HANDLE: u64 = 14;
pub const USER_SYSCALL_CLOSE_HANDLE: u64 = 15;
pub const USER_SYSCALL_OPEN_FILE_WITH_RIGHTS: u64 = 16;
pub const USER_SYSCALL_WRITE_HANDLE: u64 = 17;
pub const USER_SYSCALL_WAIT_INPUT: u64 = 18;
pub const USER_SYSCALL_CREATE_ENDPOINT: u64 = 19;
pub const USER_SYSCALL_CONNECT_ENDPOINT: u64 = 20;
pub const USER_SYSCALL_SEND_ENDPOINT: u64 = 21;
pub const USER_SYSCALL_RECEIVE_ENDPOINT: u64 = 22;
pub const USER_SYSCALL_CLOSE_ENDPOINT: u64 = 23;
pub const USER_SYSCALL_CONSOLE_WRITE: u64 = 24;
pub const USER_SYSCALL_CONSOLE_SET_INPUT: u64 = 25;
pub const USER_SYSCALL_CONSOLE_CLEAR: u64 = 26;
pub const USER_SYSCALL_READ_DIRECTORY: u64 = 27;
pub const USER_SYSCALL_TRUNCATE_HANDLE: u64 = 28;
pub const USER_SYSCALL_PROCESS_LAUNCH: u64 = 29;
pub const USER_SYSCALL_PROCESS_STATUS: u64 = 30;
pub const USER_SYSCALL_PROCESS_KILL: u64 = 31;
pub const USER_SYSCALL_PROCESS_REAP: u64 = 32;
pub const USER_SYSCALL_CREATE_DIRECTORY: u64 = 33;
pub const USER_SYSCALL_REMOVE_PATH: u64 = 34;
pub const USER_SYSCALL_NETWORK_CONFIG: u64 = 35;
pub const USER_SYSCALL_UDP_EXCHANGE: u64 = 36;
pub const USER_SYSCALL_TCP_EXCHANGE: u64 = 37;
pub const USER_SYSCALL_SOCKET_OPEN: u64 = 38;
pub const USER_SYSCALL_SOCKET_CONNECT: u64 = 39;
pub const USER_SYSCALL_SOCKET_SEND: u64 = 40;
pub const USER_SYSCALL_SOCKET_RECEIVE: u64 = 41;
pub const USER_SYSCALL_SOCKET_STATUS: u64 = 42;
pub const USER_SYSCALL_SOCKET_SHUTDOWN: u64 = 43;
pub const USER_SYSCALL_SOCKET_CLOSE: u64 = 44;
pub const USER_SYSCALL_SOCKET_BIND: u64 = 45;
pub const USER_SYSCALL_SOCKET_LISTEN: u64 = 46;
pub const USER_SYSCALL_SOCKET_ACCEPT: u64 = 47;
/// Bytes of each user structure that a call copies out or in.
pub const USER_SYSTEM_INFO_BYTES: u64 = 160;
pub const USER_FILE_STAT_BYTES: u64 = 32;
pub const USER_INPUT_EVENT_BYTES: u64 = 32;
pub const USER_CHANNEL_MESSAGE_SIZE: u64 = 16;
pub const USER_DIRECTORY_ENTRY_BYTES: u64 = 96;
pub const USER_PROCESS_STATUS_BYTES: u64 = 64;
pub const USER_NETWORK_CONFIG_BYTES: u64 = 24;
pub const USER_SOCKET_STATUS_BYTES: u64 = 40;
pub const USER_CONSOLE_LINE_OUTPUT: u64 = 0;
pub const USER_CONSOLE_LINE_PROMPT: u64 = 1;
pub const USER_CONSOLE_LINE_ERROR: u64 = 2;
pub const USER_CONSOLE_LINE_STATUS: u64 = 3;
pub const USER_CONSOLE_TEXT_MAX: usize = 80;
/// The only image a process can be launched from: the init image.
pub const USER_PROCESS_IMAGE_INIT: u64 = 1;
/// Launch modes: run at once, or hold until released.
pub const USER_PROCESS_MODE_NORMAL: u64 = 1;
pub const USER_PROCESS_MODE_HOLD: u64 = 2;
/// The longest name of a directory entry.
pub const USER_DIRECTORY_NAME_MAX: usize = 64;
pub const USER_SOCKET_PROTOCOL_UDP: u64 = 1;
pub const USER_SOCKET_PROTOCOL_TCP_STREAM: u64 = 2;
pub const USER_SOCKET_LISTENER_BACKLOG_CAPACITY: u64 = 2;
pub const USER_SOCKET_LISTENER_PORT_MIN: u64 = 1024;
pub const USER_SOCKET_BUFFER_CAPACITY: u64 = 128;
pub const USER_SOCKET_SHUTDOWN_READ: u64 = 1;
pub const USER_SOCKET_SHUTDOWN_WRITE: u64 = 2;
pub const USER_SOCKET_SHUTDOWN_BOTH: u64 = 3;
pub const USER_MESSAGE_CAPACITY: u64 = 4;
pub const USER_FILE_READ_MAX: usize = 128;
pub const USER_FILE_WRITE_MAX: usize = 128;
pub const USER_FILE_HANDLE_CAPACITY: u64 = 4;
pub const USER_FILE_KIND_REGULAR: u64 = 1;
pub const USER_FILE_KIND_DIRECTORY: u64 = 2;
pub const USER_FILE_RIGHT_READ: u64 = 1;
pub const USER_FILE_RIGHT_WRITE: u64 = 2;
pub const USER_FILE_RIGHT_MANAGE: u64 = 4;
pub const USER_FILE_RIGHTS_MASK: u64 = 7;
pub const USER_WRITABLE_PREFIX: &'static str = "/USER/";
pub const USER_INPUT_MASK_KEYBOARD: u64 = 1;
pub const USER_INPUT_MASK_POINTER: u64 = 2;
pub const USER_INPUT_MASK_ALL: u64 = 3;
pub const USER_INPUT_KIND_KEY: u64 = 1;
pub const USER_INPUT_KIND_POINTER_MOVE: u64 = 2;
pub const USER_INPUT_KIND_POINTER_BUTTON: u64 = 3;
pub const USER_KEY_CHAR: u64 = 1;
pub const USER_KEY_ENTER: u64 = 2;
pub const USER_KEY_BACKSPACE: u64 = 3;
pub const USER_KEY_ESCAPE: u64 = 4;
pub const USER_KEY_TAB: u64 = 5;
pub const USER_KEY_ARROW_UP: u64 = 6;
pub const USER_KEY_ARROW_DOWN: u64 = 7;
pub const USER_POINTER_BUTTON_LEFT: u64 = 1;
pub const USER_POINTER_BUTTON_RIGHT: u64 = 2;
pub const USER_POINTER_BUTTON_MIDDLE: u64 = 4;
pub const USER_ERROR_UNKNOWN_SYSCALL: u64 = 0xffff_ffff_ffff_ffff;
pub const USER_ERROR_INVALID_ARGUMENT: u64 = 0xffff_ffff_ffff_fffe;
pub const USER_ERROR_UNAVAILABLE: u64 = 0xffff_ffff_ffff_fffd;
pub const USER_PAGE_SIZE: u64 = 4096;
pub const USER_TIMER_HZ: u64 = 100;
pub const USER_PING_REPLY: u64 = 0x4745_4e4f_535f_4f4b;

/// Kernel-owned words at the start of every user image.
#[derive(Clone, Copy, Debug, PartialEq, Eq, Structural)]
pub struct UserProcessHeader {
    pub token: u64,
    pub preemptions: u64,
}

impl UserProcessHeader {
    pub fn empty() -> (r: Self)
        ensures
            r.token == 0,
            r.preemptions == 0,
    {
        Self { token: 0, preemptions: 0 }
    }
}

/// Limits reported to user space by the system-information call.
#[derive(Clone, Copy, Debug, PartialEq, Eq, Structural)]
pub struct UserSystemInfo {
    pub abi_version: u64,
    pub page_size: u64,
    pub timer_hz: u64,
    pub message_capacity: u64,
    pub max_file_read: u64,
    pub file_handle_capacity: u64,
    pub max_file_write: u64,
    pub input_event_size: u64,
    pub input_mask: u64,
}

impl UserSystemInfo {
    pub fn empty() -> (r: Self)
        ensures
            r == (UserSystemInfo {
                abi_version: 0,
                page_size: 0,
                timer_hz: 0,
                message_capacity: 0,
                max_file_read: 0,
                file_handle_capacity: 0,
                max_file_write: 0,
                input_event_size: 0,
                input_mask: 0,
            }),
    {
        Self {
            abi_version: 0,
            page_size: 0,
            timer_hz: 0,
            message_capacity: 0,
            max_file_read: 0,
            file_handle_capacity: 0,
            max_file_write: 0,
            input_event_size: 0,
            input_mask: 0,
        }
    }
}

/// One keyboard or pointer event as copied out to user space.
#[derive(Clone, Copy, Debug, PartialEq, Eq, Structural)]
pub struct UserInputEvent {
    pub kind: u64,
    pub code: u64,
    pub value0: i64,
    pub value1: i64,
}

impl UserInputEvent {
    pub fn empty() -> (r: Self)
        ensures
            r == (UserInputEvent { kind: 0, code: 0, value0: 0, value1: 0 }),
    {
        Self { kind: 0, code: 0, value0: 0, value1: 0 }
    }
}

/// Metadata of an open file handle as copied out to user space.
#[derive(Clone, Copy, Debug, PartialEq, Eq, Structural)]
pub struct UserFileStat {
    pub size: u64,
    pub offset: u64,
    pub kind: u64,
    pub rights: u64,
}

impl UserFileStat {
    pub fn empty() -> (r: Self)
        ensures
            r == (UserFileStat { size: 0, offset: 0, kind: 0, rights: 0 }),
    {
        Self { size: 0, offset: 0, kind: 0, rights: 0 }
    }
}

/// One message queued on an endpoint: who sent it and its word.
#[derive(Clone, Copy, Debug, PartialEq, Eq, Structural)]
pub struct UserChannelMessage {
    pub sender_pid: u64,
    pub value: u64,
}

impl UserChannelMessage {
    pub fn empty() -> (r: Self)
        ensures
            r == (UserChannelMessage { sender_pid: 0, value: 0 }),
    {
        Self { sender_pid: 0, value: 0 }
    }
}

#[derive(Clone, Copy, Debug, PartialEq, Eq, Structural)]
pub enum PixelFormat {
    Rgb,
    Bgr,
    Bitmask,
    Unknown,
}

#[derive(Clone, Copy, Debug, PartialEq, Eq, Structural)]
pub enum MemoryRegionKind {
    Usable,
    Bootloader,
    Kernel,
    Framebuffer,
    Acpi,
    Mmio,
    Reserved,
}

#[derive(Clone, Copy, Debug, PartialEq, Eq, Structural)]
pub struct FramebufferInfo {
    pub base: u64,
    pub size: u64,
    pub width: u32,
    pub height: u32,
    pub stride: u32,
    pub pixel_format: PixelFormat,
}

impl FramebufferInfo {
    pub fn empty() -> (r: Self)
        ensures
            r == (FramebufferInfo {
                base: 0,
                size: 0,
                width: 0,
                height: 0,
                stride: 0,
                pixel_format: PixelFormat::Bgr,
            }),
    {
        Self { base: 0, size: 0, width: 0, height: 0, stride: 0, pixel_format: PixelFormat::Bgr }
    }
}

#[derive(Clone, Copy, Debug, PartialEq, Eq, Structural)]
pub struct MemoryRegion {
    pub start: u64,
    pub size: u64,
    pub kind: MemoryRegionKind,
}

impl MemoryRegion {
    pub fn empty() -> (r: Self)
        ensures
            r == (MemoryRegion { start: 0, size: 0, kind: MemoryRegionKind::Reserved }),
    {
        Self { start: 0, size: 0, kind: MemoryRegionKind::Reserved }
    }
}

/// The firmware memory map handed to the kernel.
#[derive(Clone, Copy, Debug)]
pub struct MemoryMapInfo {
    pub region_count: u64,
    pub regions: [MemoryRegion; 256],
}

impl MemoryMapInfo {
    pub fn empty() -> (r: Self)
        ensures
            r.region_count == 0,
            r.regions@.len() == MAX_MEMORY_REGIONS,
            forall|i: int|
                0 <= i < MAX_MEMORY_REGIONS ==> #[trigger] r.regions@[i] == (MemoryRegion {
                    start: 0,
                    size: 0,
                    kind: MemoryRegionKind::Reserved,
                }),
    {
        let region = MemoryRegion::empty();
        Self { region_count: 0, regions: [region; 256] }
    }
}

#[derive(Clone, Copy, Debug, PartialEq, Eq, Structural)]
pub struct InitrdInfo {
    pub base: u64,
    pub size: u64,
}

/// Everything the loader hands to the kernel entry point.
#[derive(Clone, Copy, Debug)]
pub struct BootInfo {
    pub magic: u64,
    pub version: u32,
    pub bootloader_version: u32,
    pub framebuffer: FramebufferInfo,
    pub memory_map: MemoryMapInfo,
    pub initrd: InitrdInfo,
    pub cmdline_len: u32,
    pub cmdline: [u8; 128],
}

impl BootInfo {
    pub fn empty() -> (r: Self)
        ensures
            r.magic == BOOT_INFO_MAGIC,
            r.version == BOOT_INFO_VERSION,
            r.bootloader_version == BOOTLOADER_VERSION,
            r.framebuffer == (FramebufferInfo {
                base: 0,
                size: 0,
                width: 0,
                height: 0,
                stride: 0,
                pixel_format: PixelFormat::Bgr,
            }),
            r.memory_map.region_count == 0,
            r.memory_map.regions@.len() == MAX_MEMORY_REGIONS,
            forall|i: int|
                0 <= i < MAX_MEMORY_REGIONS ==> #[trigger] r.memory_map.regions@[i] == (
                MemoryRegion { start: 0, size: 0, kind: MemoryRegionKind::Reserved }),
            r.initrd == (InitrdInfo { base: 0, size: 0 }),
            r.cmdline_len == 0,
            r.cmdline@ == Seq::new(MAX_CMDLINE_LEN as nat, |i: int| 0u8),
    {
        let r = Self {
            magic: BOOT_INFO_MAGIC,
            version: BOOT_INFO_VERSION,
            bootloader_version: BOOTLOADER_VERSION,
            framebuffer: FramebufferInfo::empty(),
            memory_map: MemoryMapInfo::empty(),
            initrd: InitrdInfo { base: 0, size: 0 },
            cmdline_len: 0,
            cmdline: [0u8; 128],
        };
        assert(r.cmdline@ =~= Seq::new(MAX_CMDLINE_LEN as nat, |i: int| 0u8));
        r
    }

    /// Stores at most `MAX_CMDLINE_LEN` bytes of `text`; bytes past the copied
    /// prefix keep their previous value.
    pub fn set_cmdline(&mut self, text: &str)
        ensures
            final(self).cmdline_len as int == min_len(text.spec_bytes().len() as int),
            final(self).cmdline@ == cmdline_after(old(self).cmdline@, text.spec_bytes()),
            final(self).magic == old(self).magic,
            final(self).version == old(self).version,
            final(self).bootloader_version == old(self).bootloader_version,
            final(self).framebuffer == old(self).framebuffer,
            final(self).memory_map == old(self).memory_map,
            final(self).initrd == old(self).initrd,
    {
        let bytes = text.as_bytes();
        let len = if bytes.len() < MAX_CMDLINE_LEN { bytes.len() } else { MAX_CMDLINE_LEN };
        let mut i: usize = 0;
        while i < len
            invariant
                len == min_len(bytes@.len() as int),
                bytes@ == text.spec_bytes(),
                i <= len,
                self.cmdline@.len() == MAX_CMDLINE_LEN,
                forall|j: int| 0 <= j < i ==> #[trigger] self.cmdline@[j] == bytes@[j],
                forall|j: int|
                    len <= j < MAX_CMDLINE_LEN ==> #[trigger] self.cmdline@[j] == old(
                        self,
                    ).cmdline@[j],
                self.magic == old(self).magic,
                self.version == old(self).version,
                self.bootloader_version == old(self).bootloader_version,
                self.framebuffer == old(self).framebuffer,
                self.memory_map == old(self).memory_map,
                self.initrd == old(self).initrd,
            decreases len - i,
        {
            self.cmdline[i] = bytes[i];
            i += 1;
        }
        self.cmdline_len = len as u32;
        assert(self.cmdline@ =~= bytes@.subrange(0, len as int) + old(self).cmdline@.subrange(
            len as int,
            MAX_CMDLINE_LEN as int,
        ));
    }
}

/// The command-line buffer after `text` is stored over `previous`.
pub open spec fn cmdline_after(previous: Seq<u8>, text: Seq<u8>) -> Seq<u8> {
    text.subrange(0, min_len(text.len() as int)) + previous.subrange(
        min_len(text.len() as int),
        MAX_CMDLINE_LEN as int,
    )
}

/// Length of the copied command-line prefix.
pub open spec fn min_len(len: int) -> int {
    if len < MAX_CMDLINE_LEN {
        len
    } else {
        MAX_CMDLINE_LEN as int
    }
}

} // verus!
