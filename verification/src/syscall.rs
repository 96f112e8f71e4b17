//! System-call results, user-buffer checks and the capability handles
//! of the console and of process lifecycle control.
use vstd::prelude::*;
use crate::abi::{
    USER_ABI_VERSION,
    USER_CHANNEL_MESSAGE_SIZE,
    USER_CONSOLE_LINE_STATUS,
    USER_CONSOLE_TEXT_MAX,
    USER_DIRECTORY_ENTRY_BYTES,
    USER_DIRECTORY_NAME_MAX,
    USER_ERROR_INVALID_ARGUMENT,
    USER_ERROR_UNAVAILABLE,
    USER_ERROR_UNKNOWN_SYSCALL,
    USER_FILE_READ_MAX,
    USER_FILE_RIGHTS_MASK,
    USER_FILE_STAT_BYTES,
    USER_INPUT_EVENT_BYTES,
    USER_INPUT_MASK_ALL,
    USER_NETWORK_CONFIG_BYTES,
    USER_PING_REPLY,
    USER_PROCESS_IMAGE_INIT,
    USER_PROCESS_MODE_HOLD,
    USER_PROCESS_MODE_NORMAL,
    USER_PROCESS_STATUS_BYTES,
    USER_SOCKET_BUFFER_CAPACITY,
    USER_SOCKET_LISTENER_BACKLOG_CAPACITY,
    USER_SOCKET_LISTENER_PORT_MIN,
    USER_SOCKET_PROTOCOL_TCP_STREAM,
    USER_SOCKET_PROTOCOL_UDP,
    USER_SOCKET_SHUTDOWN_BOTH,
    USER_SOCKET_SHUTDOWN_READ,
    USER_SOCKET_SHUTDOWN_WRITE,
    USER_SOCKET_STATUS_BYTES,
    USER_SYSCALL_ABI_VERSION,
    USER_SYSCALL_CLOSE_ENDPOINT,
    USER_SYSCALL_CLOSE_HANDLE,
    USER_SYSCALL_CONNECT_ENDPOINT,
    USER_SYSCALL_CONSOLE_CLEAR,
    USER_SYSCALL_CONSOLE_SET_INPUT,
    USER_SYSCALL_CONSOLE_WRITE,
    USER_SYSCALL_CREATE_DIRECTORY,
    USER_SYSCALL_CREATE_ENDPOINT,
    USER_SYSCALL_EXIT,
    USER_SYSCALL_NETWORK_CONFIG,
    USER_SYSCALL_OPEN_FILE,
    USER_SYSCALL_OPEN_FILE_WITH_RIGHTS,
    USER_SYSCALL_PING,
    USER_SYSCALL_PROCESS_KILL,
    USER_SYSCALL_PROCESS_LAUNCH,
    USER_SYSCALL_PROCESS_REAP,
    USER_SYSCALL_PROCESS_STATUS,
    USER_SYSCALL_READ_DIRECTORY,
    USER_SYSCALL_READ_FILE,
    USER_SYSCALL_READ_HANDLE,
    USER_SYSCALL_RECEIVE,
    USER_SYSCALL_RECEIVE_ENDPOINT,
    USER_SYSCALL_REMOVE_PATH,
    USER_SYSCALL_REPORT,
    USER_SYSCALL_SEND,
    USER_SYSCALL_SEND_ENDPOINT,
    USER_SYSCALL_SLEEP,
    USER_SYSCALL_SOCKET_ACCEPT,
    USER_SYSCALL_SOCKET_BIND,
    USER_SYSCALL_SOCKET_CLOSE,
    USER_SYSCALL_SOCKET_CONNECT,
    USER_SYSCALL_SOCKET_LISTEN,
    USER_SYSCALL_SOCKET_OPEN,
    USER_SYSCALL_SOCKET_RECEIVE,
    USER_SYSCALL_SOCKET_SEND,
    USER_SYSCALL_SOCKET_SHUTDOWN,
    USER_SYSCALL_SOCKET_STATUS,
    USER_SYSCALL_STAT_HANDLE,
    USER_SYSCALL_SYSTEM_INFO,
    USER_SYSCALL_TCP_EXCHANGE,
    USER_SYSCALL_TRUNCATE_HANDLE,
    USER_SYSCALL_UDP_EXCHANGE,
    USER_SYSCALL_WAIT_CHILD,
    USER_SYSCALL_WAIT_INPUT,
    USER_SYSCALL_WRITE,
    USER_SYSCALL_WRITE_HANDLE,
    USER_SYSCALL_YIELD,
    USER_SYSTEM_INFO_BYTES,
};

verus! {

/// What a validated system call asks the kernel to do.
#[derive(Clone, Copy, Debug, PartialEq, Eq, Structural)]
pub enum SyscallAction {
    Return(u64),
    Exit(u8),
    Yield,
    Report {
        address: u64,
        length: u64,
    },
    Write {
        address: u64,
        length: u64,
    },
    Sleep {
        ticks: u64,
    },
    Send {
        pid: u8,
        value: u64,
    },
    Receive,
    WaitChild {
        pid: u8,
    },
    SystemInfo {
        address: u64,
        length: u64,
    },
    ReadFile {
        path_address: u64,
        path_length: u64,
        output_address: u64,
        output_capacity: u64,
    },
    OpenFile {
        path_address: u64,
        path_length: u64,
    },
    ReadHandle {
        handle: u64,
        output_address: u64,
        output_capacity: u64,
    },
    StatHandle {
        handle: u64,
        output_address: u64,
        output_length: u64,
    },
    CloseHandle {
        handle: u64,
    },
    OpenFileWithRights {
        path_address: u64,
        path_length: u64,
        rights: u64,
    },
    WriteHandle {
        handle: u64,
        input_address: u64,
        input_length: u64,
    },
    TruncateHandle {
        handle: u64,
    },
    WaitInput {
        output_address: u64,
        output_length: u64,
        mask: u64,
    },
    CreateEndpoint,
    ConnectEndpoint {
        pid: u8,
    },
    SendEndpoint {
        handle: u64,
        value: u64,
    },
    ReceiveEndpoint {
        handle: u64,
        output_address: u64,
        output_length: u64,
    },
    CloseEndpoint {
        handle: u64,
    },
    ConsoleWrite {
        handle: u64,
        address: u64,
        length: u64,
        kind: u64,
    },
    ConsoleSetInput {
        handle: u64,
        address: u64,
        length: u64,
    },
    ConsoleClear {
        handle: u64,
    },
    ReadDirectory {
        handle: u64,
        cursor: u64,
        output_address: u64,
        output_length: u64,
    },
    ProcessLaunch {
        supervisor: u64,
        image: u64,
        mode: u64,
    },
    ProcessStatus {
        handle: u64,
        output_address: u64,
        output_length: u64,
    },
    ProcessKill {
        handle: u64,
    },
    ProcessReap {
        handle: u64,
        output_address: u64,
        output_length: u64,
    },
    CreateDirectory {
        parent: u64,
        name_address: u64,
        name_length: u64,
    },
    RemovePath {
        parent: u64,
        name_address: u64,
        name_length: u64,
    },
    NetworkConfig {
        output_address: u64,
        output_length: u64,
    },
    UdpExchange {
        target: u32,
        port: u16,
        input_address: u64,
        input_length: u64,
        output_address: u64,
        output_capacity: u64,
    },
    TcpExchange {
        target: u32,
        port: u16,
        input_address: u64,
        input_length: u64,
        output_address: u64,
        output_capacity: u64,
    },
    SocketOpen {
        protocol: u64,
    },
    SocketConnect {
        handle: u64,
        target: u32,
        port: u16,
    },
    SocketBind {
        handle: u64,
        port: u16,
    },
    SocketListen {
        handle: u64,
        backlog: u64,
    },
    SocketAccept {
        handle: u64,
    },
    SocketSend {
        handle: u64,
        input_address: u64,
        input_length: u64,
    },
    SocketReceive {
        handle: u64,
        output_address: u64,
        output_capacity: u64,
    },
    SocketStatus {
        handle: u64,
        output_address: u64,
        output_length: u64,
    },
    SocketShutdown {
        handle: u64,
        direction: u64,
    },
    SocketClose {
        handle: u64,
    },
}

#[derive(Clone, Copy, Debug, PartialEq, Eq, Structural)]
pub enum SyscallError {
    UnknownNumber,
    InvalidArgument,
    Unavailable,
}

/// The tag in the top byte of a console handle.
pub const CONSOLE_HANDLE_TAG: u64 = 0xc100_0000_0000_0000;
/// The tag in the top byte of a lifecycle handle.
pub const LIFECYCLE_HANDLE_TAG: u64 = 0xc200_0000_0000_0000;

/// The console handle of process `pid`: the tag, the pid in the next byte
/// and the low 48 bits of the generation.
pub open spec fn spec_console_handle(pid: u8, generation: u64) -> int {
    CONSOLE_HANDLE_TAG + pid * 0x1_0000_0000_0000 + generation % 0x1_0000_0000_0000
}

/// The lifecycle handle: the tag and the low 56 bits of the generation.
pub open spec fn spec_lifecycle_handle(generation: u64) -> int {
    LIFECYCLE_HANDLE_TAG + generation % 0x100_0000_0000_0000
}

/// The top byte of a handle.
pub open spec fn tag_of(h: u64) -> int {
    (h / 0x100_0000_0000_0000) as int
}

pub fn console_handle(pid: u8, generation: u64) -> (h: u64)
    ensures
        h == spec_console_handle(pid, generation),
{
    CONSOLE_HANDLE_TAG + pid as u64 * 0x1_0000_0000_0000 + generation % 0x1_0000_0000_0000
}

/// A presented console capability is valid when it is exactly the owned,
/// nonzero handle and carries the console tag.
pub fn console_capability_valid(owned: u64, presented: u64) -> (r: bool)
    ensures
        r == (owned != 0 && owned == presented && tag_of(presented) == 0xc1),
{
    owned != 0 && owned == presented && presented / 0x100_0000_0000_0000 == 0xc1
}

pub fn lifecycle_handle(generation: u64) -> (h: u64)
    ensures
        h == spec_lifecycle_handle(generation),
{
    LIFECYCLE_HANDLE_TAG + generation % 0x100_0000_0000_0000
}

/// A presented lifecycle capability is valid when it is exactly the owned,
/// nonzero handle and carries the lifecycle tag.
pub fn lifecycle_capability_valid(owned: u64, presented: u64) -> (r: bool)
    ensures
        r == (owned != 0 && owned == presented && tag_of(presented) == 0xc2),
{
    owned != 0 && owned == presented && presented / 0x100_0000_0000_0000 == 0xc2
}

/// Every console handle is accepted back exactly, and no other value is.
pub proof fn lemma_console_handles_are_tagged(pid: u8, generation: u64)
    ensures
        tag_of(spec_console_handle(pid, generation) as u64) == 0xc1,
        spec_console_handle(pid, generation) != 0,
{
    let h = spec_console_handle(pid, generation);
    let rest = pid * 0x1_0000_0000_0000 + generation % 0x1_0000_0000_0000;
    assert(0 <= rest < 0x100_0000_0000_0000);
    vstd::arithmetic::div_mod::lemma_fundamental_div_mod_converse(h, 0x100_0000_0000_0000, 0xc1, rest);
}

/// Every lifecycle handle carries the lifecycle tag.
pub proof fn lemma_lifecycle_handles_are_tagged(generation: u64)
    ensures
        tag_of(spec_lifecycle_handle(generation) as u64) == 0xc2,
        spec_lifecycle_handle(generation) != 0,
{
    let h = spec_lifecycle_handle(generation);
    let rest = (generation % 0x100_0000_0000_0000) as int;
    vstd::arithmetic::div_mod::lemma_fundamental_div_mod_converse(h, 0x100_0000_0000_0000, 0xc2, rest);
}

pub fn error_code(error: SyscallError) -> (r: u64)
    ensures
        r == match error {
            SyscallError::UnknownNumber => USER_ERROR_UNKNOWN_SYSCALL,
            SyscallError::InvalidArgument => USER_ERROR_INVALID_ARGUMENT,
            SyscallError::Unavailable => USER_ERROR_UNAVAILABLE,
        },
{
    match error {
        SyscallError::UnknownNumber => USER_ERROR_UNKNOWN_SYSCALL,
        SyscallError::InvalidArgument => USER_ERROR_INVALID_ARGUMENT,
        SyscallError::Unavailable => USER_ERROR_UNAVAILABLE,
    }
}

/// A nonempty user buffer lies inside the owned mapping, with no address
/// overflowing.
pub fn validate_user_buffer(address: u64, length: u64, range_start: u64, range_size: u64) -> (r: bool)
    ensures
        r == (length != 0 && address >= range_start && address + length <= u64::MAX && range_start
            + range_size <= u64::MAX && address + length <= range_start + range_size),
{
    if length == 0 || address < range_start {
        return false;
    }
    let end = match address.checked_add(length) {
        None => return false,
        Some(e) => e,
    };
    let range_end = match range_start.checked_add(range_size) {
        None => return false,
        Some(e) => e,
    };
    end <= range_end
}

/// Every argument word from `k` on is zero.
pub open spec fn zero_from(a: Seq<u64>, k: int) -> bool {
    forall|i: int| k <= i < 6 ==> a[i] == 0
}

fn zeros_from(args: &[u64; 6], k: usize) -> (r: bool)
    requires
        k <= 6,
    ensures
        r == zero_from(args@, k as int),
{
    let mut i = k;
    while i < 6
        invariant
            k <= i <= 6,
            forall|j: int| k <= j < i ==> args@[j] == 0,
        decreases 6 - i,
    {
        if args[i] != 0 {
            return false;
        }
        i += 1;
    }
    true
}

/// The action of a well-formed call among those on processes, files and input.
pub open spec fn spec_action_a(n: u64, a: Seq<u64>) -> Option<SyscallAction> {
    if n == USER_SYSCALL_PING {
        if zero_from(a, 0) { Some(SyscallAction::Return(USER_PING_REPLY)) } else { None }
    } else if n == USER_SYSCALL_ABI_VERSION {
        if zero_from(a, 0) { Some(SyscallAction::Return(USER_ABI_VERSION)) } else { None }
    } else if n == USER_SYSCALL_EXIT {
        if a[0] <= 255 && zero_from(a, 1) { Some(SyscallAction::Exit(a[0] as u8)) } else { None }
    } else if n == USER_SYSCALL_YIELD {
        if zero_from(a, 0) { Some(SyscallAction::Yield) } else { None }
    } else if n == USER_SYSCALL_REPORT {
        if a[0] != 0 && a[1] == 8 && zero_from(a, 2) { Some(SyscallAction::Report { address: a[0], length: a[1] }) } else { None }
    } else if n == USER_SYSCALL_WRITE {
        if a[0] != 0 && 1 <= a[1] && a[1] <= 80 && zero_from(a, 2) { Some(SyscallAction::Write { address: a[0], length: a[1] }) } else { None }
    } else if n == USER_SYSCALL_SLEEP {
        if 1 <= a[0] && a[0] <= 10_000 && zero_from(a, 1) { Some(SyscallAction::Sleep { ticks: a[0] }) } else { None }
    } else if n == USER_SYSCALL_WAIT_CHILD {
        if 1 <= a[0] && a[0] <= 255 && zero_from(a, 1) { Some(SyscallAction::WaitChild { pid: a[0] as u8 }) } else { None }
    } else if n == USER_SYSCALL_SYSTEM_INFO {
        if a[0] != 0 && a[1] == USER_SYSTEM_INFO_BYTES && zero_from(a, 2) { Some(SyscallAction::SystemInfo { address: a[0], length: a[1] }) } else { None }
    } else if n == USER_SYSCALL_READ_FILE {
        if a[0] != 0 && 1 <= a[1] && a[1] <= 64 && a[2] != 0 && 1 <= a[3] && a[3] <= USER_FILE_READ_MAX as u64 && zero_from(a, 4) { Some(SyscallAction::ReadFile { path_address: a[0], path_length: a[1], output_address: a[2], output_capacity: a[3] }) } else { None }
    } else if n == USER_SYSCALL_OPEN_FILE {
        if a[0] != 0 && 1 <= a[1] && a[1] <= 64 && zero_from(a, 2) { Some(SyscallAction::OpenFile { path_address: a[0], path_length: a[1] }) } else { None }
    } else if n == USER_SYSCALL_READ_HANDLE {
        if a[0] != 0 && a[1] != 0 && 1 <= a[2] && a[2] <= 128 && zero_from(a, 3) { Some(SyscallAction::ReadHandle { handle: a[0], output_address: a[1], output_capacity: a[2] }) } else { None }
    } else if n == USER_SYSCALL_STAT_HANDLE {
        if a[0] != 0 && a[1] != 0 && a[2] == USER_FILE_STAT_BYTES && zero_from(a, 3) { Some(SyscallAction::StatHandle { handle: a[0], output_address: a[1], output_length: a[2] }) } else { None }
    } else if n == USER_SYSCALL_CLOSE_HANDLE {
        if a[0] != 0 && zero_from(a, 1) { Some(SyscallAction::CloseHandle { handle: a[0] }) } else { None }
    } else if n == USER_SYSCALL_OPEN_FILE_WITH_RIGHTS {
        if a[0] != 0 && 1 <= a[1] && a[1] <= 64 && a[2] != 0 && (a[2] & !USER_FILE_RIGHTS_MASK) == 0 && zero_from(a, 3) { Some(SyscallAction::OpenFileWithRights { path_address: a[0], path_length: a[1], rights: a[2] }) } else { None }
    } else if n == USER_SYSCALL_WRITE_HANDLE {
        if a[0] != 0 && a[1] != 0 && 1 <= a[2] && a[2] <= 128 && zero_from(a, 3) { Some(SyscallAction::WriteHandle { handle: a[0], input_address: a[1], input_length: a[2] }) } else { None }
    } else if n == USER_SYSCALL_WAIT_INPUT {
        if a[0] != 0 && a[1] == USER_INPUT_EVENT_BYTES && a[2] != 0 && (a[2] & !USER_INPUT_MASK_ALL) == 0 && zero_from(a, 3) { Some(SyscallAction::WaitInput { output_address: a[0], output_length: a[1], mask: a[2] }) } else { None }
    } else {
        None
    }
}

fn action_a(n: u64, args: [u64; 6]) -> (r: Option<SyscallAction>)
    ensures
        r == spec_action_a(n, args@),
{
    let (a0, a1, a2, a3, a4, a5) = (args[0], args[1], args[2], args[3], args[4], args[5]);
    if n == USER_SYSCALL_PING {
        if zeros_from(&args, 0) { Some(SyscallAction::Return(USER_PING_REPLY)) } else { None }
    } else if n == USER_SYSCALL_ABI_VERSION {
        if zeros_from(&args, 0) { Some(SyscallAction::Return(USER_ABI_VERSION)) } else { None }
    } else if n == USER_SYSCALL_EXIT {
        if a0 <= 255 && zeros_from(&args, 1) { Some(SyscallAction::Exit(a0 as u8)) } else { None }
    } else if n == USER_SYSCALL_YIELD {
        if zeros_from(&args, 0) { Some(SyscallAction::Yield) } else { None }
    } else if n == USER_SYSCALL_REPORT {
        if a0 != 0 && a1 == 8 && zeros_from(&args, 2) { Some(SyscallAction::Report { address: a0, length: a1 }) } else { None }
    } else if n == USER_SYSCALL_WRITE {
        if a0 != 0 && 1 <= a1 && a1 <= 80 && zeros_from(&args, 2) { Some(SyscallAction::Write { address: a0, length: a1 }) } else { None }
    } else if n == USER_SYSCALL_SLEEP {
        if 1 <= a0 && a0 <= 10_000 && zeros_from(&args, 1) { Some(SyscallAction::Sleep { ticks: a0 }) } else { None }
    } else if n == USER_SYSCALL_WAIT_CHILD {
        if 1 <= a0 && a0 <= 255 && zeros_from(&args, 1) { Some(SyscallAction::WaitChild { pid: a0 as u8 }) } else { None }
    } else if n == USER_SYSCALL_SYSTEM_INFO {
        if a0 != 0 && a1 == USER_SYSTEM_INFO_BYTES && zeros_from(&args, 2) { Some(SyscallAction::SystemInfo { address: a0, length: a1 }) } else { None }
    } else if n == USER_SYSCALL_READ_FILE {
        if a0 != 0 && 1 <= a1 && a1 <= 64 && a2 != 0 && 1 <= a3 && a3 <= USER_FILE_READ_MAX as u64 && zeros_from(&args, 4) { Some(SyscallAction::ReadFile { path_address: a0, path_length: a1, output_address: a2, output_capacity: a3 }) } else { None }
    } else if n == USER_SYSCALL_OPEN_FILE {
        if a0 != 0 && 1 <= a1 && a1 <= 64 && zeros_from(&args, 2) { Some(SyscallAction::OpenFile { path_address: a0, path_length: a1 }) } else { None }
    } else if n == USER_SYSCALL_READ_HANDLE {
        if a0 != 0 && a1 != 0 && 1 <= a2 && a2 <= 128 && zeros_from(&args, 3) { Some(SyscallAction::ReadHandle { handle: a0, output_address: a1, output_capacity: a2 }) } else { None }
    } else if n == USER_SYSCALL_STAT_HANDLE {
        if a0 != 0 && a1 != 0 && a2 == USER_FILE_STAT_BYTES && zeros_from(&args, 3) { Some(SyscallAction::StatHandle { handle: a0, output_address: a1, output_length: a2 }) } else { None }
    } else if n == USER_SYSCALL_CLOSE_HANDLE {
        if a0 != 0 && zeros_from(&args, 1) { Some(SyscallAction::CloseHandle { handle: a0 }) } else { None }
    } else if n == USER_SYSCALL_OPEN_FILE_WITH_RIGHTS {
        if a0 != 0 && 1 <= a1 && a1 <= 64 && a2 != 0 && (a2 & !USER_FILE_RIGHTS_MASK) == 0 && zeros_from(&args, 3) { Some(SyscallAction::OpenFileWithRights { path_address: a0, path_length: a1, rights: a2 }) } else { None }
    } else if n == USER_SYSCALL_WRITE_HANDLE {
        if a0 != 0 && a1 != 0 && 1 <= a2 && a2 <= 128 && zeros_from(&args, 3) { Some(SyscallAction::WriteHandle { handle: a0, input_address: a1, input_length: a2 }) } else { None }
    } else if n == USER_SYSCALL_WAIT_INPUT {
        if a0 != 0 && a1 == USER_INPUT_EVENT_BYTES && a2 != 0 && (a2 & !USER_INPUT_MASK_ALL) == 0 && zeros_from(&args, 3) { Some(SyscallAction::WaitInput { output_address: a0, output_length: a1, mask: a2 }) } else { None }
    } else {
        None
    }
}

/// The action of a well-formed call among those on endpoints, the console and directories.
pub open spec fn spec_action_b(n: u64, a: Seq<u64>) -> Option<SyscallAction> {
    if n == USER_SYSCALL_CREATE_ENDPOINT {
        if zero_from(a, 0) { Some(SyscallAction::CreateEndpoint) } else { None }
    } else if n == USER_SYSCALL_CONNECT_ENDPOINT {
        if 1 <= a[0] && a[0] <= 255 && zero_from(a, 1) { Some(SyscallAction::ConnectEndpoint { pid: a[0] as u8 }) } else { None }
    } else if n == USER_SYSCALL_SEND_ENDPOINT {
        if a[0] != 0 && zero_from(a, 2) { Some(SyscallAction::SendEndpoint { handle: a[0], value: a[1] }) } else { None }
    } else if n == USER_SYSCALL_RECEIVE_ENDPOINT {
        if a[0] != 0 && a[1] != 0 && a[2] == USER_CHANNEL_MESSAGE_SIZE && zero_from(a, 3) { Some(SyscallAction::ReceiveEndpoint { handle: a[0], output_address: a[1], output_length: a[2] }) } else { None }
    } else if n == USER_SYSCALL_CLOSE_ENDPOINT {
        if a[0] != 0 && zero_from(a, 1) { Some(SyscallAction::CloseEndpoint { handle: a[0] }) } else { None }
    } else if n == USER_SYSCALL_CONSOLE_WRITE {
        if a[0] != 0 && a[1] != 0 && 1 <= a[2] && a[2] <= USER_CONSOLE_TEXT_MAX as u64 && a[3] <= USER_CONSOLE_LINE_STATUS && zero_from(a, 4) { Some(SyscallAction::ConsoleWrite { handle: a[0], address: a[1], length: a[2], kind: a[3] }) } else { None }
    } else if n == USER_SYSCALL_CONSOLE_SET_INPUT {
        if a[0] != 0 && a[2] <= USER_CONSOLE_TEXT_MAX as u64 && (a[2] == 0 || a[1] != 0) && zero_from(a, 3) { Some(SyscallAction::ConsoleSetInput { handle: a[0], address: a[1], length: a[2] }) } else { None }
    } else if n == USER_SYSCALL_CONSOLE_CLEAR {
        if a[0] != 0 && zero_from(a, 1) { Some(SyscallAction::ConsoleClear { handle: a[0] }) } else { None }
    } else if n == USER_SYSCALL_READ_DIRECTORY {
        if a[0] != 0 && a[2] != 0 && a[3] == USER_DIRECTORY_ENTRY_BYTES && zero_from(a, 4) { Some(SyscallAction::ReadDirectory { handle: a[0], cursor: a[1], output_address: a[2], output_length: a[3] }) } else { None }
    } else if n == USER_SYSCALL_TRUNCATE_HANDLE {
        if a[0] != 0 && zero_from(a, 1) { Some(SyscallAction::TruncateHandle { handle: a[0] }) } else { None }
    } else {
        None
    }
}

fn action_b(n: u64, args: [u64; 6]) -> (r: Option<SyscallAction>)
    ensures
        r == spec_action_b(n, args@),
{
    let (a0, a1, a2, a3, a4, a5) = (args[0], args[1], args[2], args[3], args[4], args[5]);
    if n == USER_SYSCALL_CREATE_ENDPOINT {
        if zeros_from(&args, 0) { Some(SyscallAction::CreateEndpoint) } else { None }
    } else if n == USER_SYSCALL_CONNECT_ENDPOINT {
        if 1 <= a0 && a0 <= 255 && zeros_from(&args, 1) { Some(SyscallAction::ConnectEndpoint { pid: a0 as u8 }) } else { None }
    } else if n == USER_SYSCALL_SEND_ENDPOINT {
        if a0 != 0 && zeros_from(&args, 2) { Some(SyscallAction::SendEndpoint { handle: a0, value: a1 }) } else { None }
    } else if n == USER_SYSCALL_RECEIVE_ENDPOINT {
        if a0 != 0 && a1 != 0 && a2 == USER_CHANNEL_MESSAGE_SIZE && zeros_from(&args, 3) { Some(SyscallAction::ReceiveEndpoint { handle: a0, output_address: a1, output_length: a2 }) } else { None }
    } else if n == USER_SYSCALL_CLOSE_ENDPOINT {
        if a0 != 0 && zeros_from(&args, 1) { Some(SyscallAction::CloseEndpoint { handle: a0 }) } else { None }
    } else if n == USER_SYSCALL_CONSOLE_WRITE {
        if a0 != 0 && a1 != 0 && 1 <= a2 && a2 <= USER_CONSOLE_TEXT_MAX as u64 && a3 <= USER_CONSOLE_LINE_STATUS && zeros_from(&args, 4) { Some(SyscallAction::ConsoleWrite { handle: a0, address: a1, length: a2, kind: a3 }) } else { None }
    } else if n == USER_SYSCALL_CONSOLE_SET_INPUT {
        if a0 != 0 && a2 <= USER_CONSOLE_TEXT_MAX as u64 && (a2 == 0 || a1 != 0) && zeros_from(&args, 3) { Some(SyscallAction::ConsoleSetInput { handle: a0, address: a1, length: a2 }) } else { None }
    } else if n == USER_SYSCALL_CONSOLE_CLEAR {
        if a0 != 0 && zeros_from(&args, 1) { Some(SyscallAction::ConsoleClear { handle: a0 }) } else { None }
    } else if n == USER_SYSCALL_READ_DIRECTORY {
        if a0 != 0 && a2 != 0 && a3 == USER_DIRECTORY_ENTRY_BYTES && zeros_from(&args, 4) { Some(SyscallAction::ReadDirectory { handle: a0, cursor: a1, output_address: a2, output_length: a3 }) } else { None }
    } else if n == USER_SYSCALL_TRUNCATE_HANDLE {
        if a0 != 0 && zeros_from(&args, 1) { Some(SyscallAction::TruncateHandle { handle: a0 }) } else { None }
    } else {
        None
    }
}

/// The action of a well-formed call among those on process control, paths and the network.
pub open spec fn spec_action_c(n: u64, a: Seq<u64>) -> Option<SyscallAction> {
    if n == USER_SYSCALL_PROCESS_LAUNCH {
        if a[0] != 0 && a[1] == USER_PROCESS_IMAGE_INIT && (a[2] == USER_PROCESS_MODE_NORMAL || a[2] == USER_PROCESS_MODE_HOLD) && zero_from(a, 3) { Some(SyscallAction::ProcessLaunch { supervisor: a[0], image: a[1], mode: a[2] }) } else { None }
    } else if n == USER_SYSCALL_PROCESS_STATUS {
        if a[0] != 0 && a[1] != 0 && a[2] == USER_PROCESS_STATUS_BYTES && zero_from(a, 3) { Some(SyscallAction::ProcessStatus { handle: a[0], output_address: a[1], output_length: a[2] }) } else { None }
    } else if n == USER_SYSCALL_PROCESS_KILL {
        if a[0] != 0 && zero_from(a, 1) { Some(SyscallAction::ProcessKill { handle: a[0] }) } else { None }
    } else if n == USER_SYSCALL_PROCESS_REAP {
        if a[0] != 0 && a[1] != 0 && a[2] == USER_PROCESS_STATUS_BYTES && zero_from(a, 3) { Some(SyscallAction::ProcessReap { handle: a[0], output_address: a[1], output_length: a[2] }) } else { None }
    } else if n == USER_SYSCALL_CREATE_DIRECTORY {
        if a[0] != 0 && a[1] != 0 && 1 <= a[2] && a[2] <= USER_DIRECTORY_NAME_MAX as u64 && zero_from(a, 3) { Some(SyscallAction::CreateDirectory { parent: a[0], name_address: a[1], name_length: a[2] }) } else { None }
    } else if n == USER_SYSCALL_REMOVE_PATH {
        if a[0] != 0 && a[1] != 0 && 1 <= a[2] && a[2] <= USER_DIRECTORY_NAME_MAX as u64 && zero_from(a, 3) { Some(SyscallAction::RemovePath { parent: a[0], name_address: a[1], name_length: a[2] }) } else { None }
    } else if n == USER_SYSCALL_NETWORK_CONFIG {
        if a[0] != 0 && a[1] == USER_NETWORK_CONFIG_BYTES && zero_from(a, 2) { Some(SyscallAction::NetworkConfig { output_address: a[0], output_length: a[1] }) } else { None }
    } else if n == USER_SYSCALL_UDP_EXCHANGE {
        if a[0] <= 0xffff_ffff && 1 <= a[1] && a[1] <= 0xffff && a[2] != 0 && 1 <= a[3] && a[3] <= 128 && a[4] != 0 && 1 <= a[5] && a[5] <= 128 { Some(SyscallAction::UdpExchange { target: a[0] as u32, port: a[1] as u16, input_address: a[2], input_length: a[3], output_address: a[4], output_capacity: a[5] }) } else { None }
    } else if n == USER_SYSCALL_TCP_EXCHANGE {
        if a[0] <= 0xffff_ffff && 1 <= a[1] && a[1] <= 0xffff && a[2] != 0 && 1 <= a[3] && a[3] <= 128 && a[4] != 0 && 1 <= a[5] && a[5] <= 128 { Some(SyscallAction::TcpExchange { target: a[0] as u32, port: a[1] as u16, input_address: a[2], input_length: a[3], output_address: a[4], output_capacity: a[5] }) } else { None }
    } else {
        None
    }
}

fn action_c(n: u64, args: [u64; 6]) -> (r: Option<SyscallAction>)
    ensures
        r == spec_action_c(n, args@),
{
    let (a0, a1, a2, a3, a4, a5) = (args[0], args[1], args[2], args[3], args[4], args[5]);
    if n == USER_SYSCALL_PROCESS_LAUNCH {
        if a0 != 0 && a1 == USER_PROCESS_IMAGE_INIT && (a2 == USER_PROCESS_MODE_NORMAL || a2 == USER_PROCESS_MODE_HOLD) && zeros_from(&args, 3) { Some(SyscallAction::ProcessLaunch { supervisor: a0, image: a1, mode: a2 }) } else { None }
    } else if n == USER_SYSCALL_PROCESS_STATUS {
        if a0 != 0 && a1 != 0 && a2 == USER_PROCESS_STATUS_BYTES && zeros_from(&args, 3) { Some(SyscallAction::ProcessStatus { handle: a0, output_address: a1, output_length: a2 }) } else { None }
    } else if n == USER_SYSCALL_PROCESS_KILL {
        if a0 != 0 && zeros_from(&args, 1) { Some(SyscallAction::ProcessKill { handle: a0 }) } else { None }
    } else if n == USER_SYSCALL_PROCESS_REAP {
        if a0 != 0 && a1 != 0 && a2 == USER_PROCESS_STATUS_BYTES && zeros_from(&args, 3) { Some(SyscallAction::ProcessReap { handle: a0, output_address: a1, output_length: a2 }) } else { None }
    } else if n == USER_SYSCALL_CREATE_DIRECTORY {
        if a0 != 0 && a1 != 0 && 1 <= a2 && a2 <= USER_DIRECTORY_NAME_MAX as u64 && zeros_from(&args, 3) { Some(SyscallAction::CreateDirectory { parent: a0, name_address: a1, name_length: a2 }) } else { None }
    } else if n == USER_SYSCALL_REMOVE_PATH {
        if a0 != 0 && a1 != 0 && 1 <= a2 && a2 <= USER_DIRECTORY_NAME_MAX as u64 && zeros_from(&args, 3) { Some(SyscallAction::RemovePath { parent: a0, name_address: a1, name_length: a2 }) } else { None }
    } else if n == USER_SYSCALL_NETWORK_CONFIG {
        if a0 != 0 && a1 == USER_NETWORK_CONFIG_BYTES && zeros_from(&args, 2) { Some(SyscallAction::NetworkConfig { output_address: a0, output_length: a1 }) } else { None }
    } else if n == USER_SYSCALL_UDP_EXCHANGE {
        if a0 <= 0xffff_ffff && 1 <= a1 && a1 <= 0xffff && a2 != 0 && 1 <= a3 && a3 <= 128 && a4 != 0 && 1 <= a5 && a5 <= 128 { Some(SyscallAction::UdpExchange { target: a0 as u32, port: a1 as u16, input_address: a2, input_length: a3, output_address: a4, output_capacity: a5 }) } else { None }
    } else if n == USER_SYSCALL_TCP_EXCHANGE {
        if a0 <= 0xffff_ffff && 1 <= a1 && a1 <= 0xffff && a2 != 0 && 1 <= a3 && a3 <= 128 && a4 != 0 && 1 <= a5 && a5 <= 128 { Some(SyscallAction::TcpExchange { target: a0 as u32, port: a1 as u16, input_address: a2, input_length: a3, output_address: a4, output_capacity: a5 }) } else { None }
    } else {
        None
    }
}

/// The action of a well-formed call among those on sockets.
pub open spec fn spec_action_d(n: u64, a: Seq<u64>) -> Option<SyscallAction> {
    if n == USER_SYSCALL_SOCKET_OPEN {
        if (a[0] == USER_SOCKET_PROTOCOL_UDP || a[0] == USER_SOCKET_PROTOCOL_TCP_STREAM) && zero_from(a, 1) { Some(SyscallAction::SocketOpen { protocol: a[0] }) } else { None }
    } else if n == USER_SYSCALL_SOCKET_CONNECT {
        if a[0] != 0 && a[1] <= 0xffff_ffff && a[1] != 0 && 1 <= a[2] && a[2] <= 0xffff && zero_from(a, 3) { Some(SyscallAction::SocketConnect { handle: a[0], target: a[1] as u32, port: a[2] as u16 }) } else { None }
    } else if n == USER_SYSCALL_SOCKET_SEND {
        if a[0] != 0 && a[1] != 0 && 1 <= a[2] && a[2] <= USER_SOCKET_BUFFER_CAPACITY && zero_from(a, 3) { Some(SyscallAction::SocketSend { handle: a[0], input_address: a[1], input_length: a[2] }) } else { None }
    } else if n == USER_SYSCALL_SOCKET_RECEIVE {
        if a[0] != 0 && a[1] != 0 && 1 <= a[2] && a[2] <= USER_SOCKET_BUFFER_CAPACITY && zero_from(a, 3) { Some(SyscallAction::SocketReceive { handle: a[0], output_address: a[1], output_capacity: a[2] }) } else { None }
    } else if n == USER_SYSCALL_SOCKET_STATUS {
        if a[0] != 0 && a[1] != 0 && a[2] == USER_SOCKET_STATUS_BYTES && zero_from(a, 3) { Some(SyscallAction::SocketStatus { handle: a[0], output_address: a[1], output_length: a[2] }) } else { None }
    } else if n == USER_SYSCALL_SOCKET_SHUTDOWN {
        if a[0] != 0 && (a[1] == USER_SOCKET_SHUTDOWN_READ || a[1] == USER_SOCKET_SHUTDOWN_WRITE || a[1] == USER_SOCKET_SHUTDOWN_BOTH) && zero_from(a, 2) { Some(SyscallAction::SocketShutdown { handle: a[0], direction: a[1] }) } else { None }
    } else if n == USER_SYSCALL_SOCKET_CLOSE {
        if a[0] != 0 && zero_from(a, 1) { Some(SyscallAction::SocketClose { handle: a[0] }) } else { None }
    } else if n == USER_SYSCALL_SOCKET_BIND {
        if a[0] != 0 && USER_SOCKET_LISTENER_PORT_MIN <= a[1] && a[1] <= 0xffff && zero_from(a, 2) { Some(SyscallAction::SocketBind { handle: a[0], port: a[1] as u16 }) } else { None }
    } else if n == USER_SYSCALL_SOCKET_LISTEN {
        if a[0] != 0 && 1 <= a[1] && a[1] <= USER_SOCKET_LISTENER_BACKLOG_CAPACITY && zero_from(a, 2) { Some(SyscallAction::SocketListen { handle: a[0], backlog: a[1] }) } else { None }
    } else if n == USER_SYSCALL_SOCKET_ACCEPT {
        if a[0] != 0 && zero_from(a, 1) { Some(SyscallAction::SocketAccept { handle: a[0] }) } else { None }
    } else {
        None
    }
}

fn action_d(n: u64, args: [u64; 6]) -> (r: Option<SyscallAction>)
    ensures
        r == spec_action_d(n, args@),
{
    let (a0, a1, a2, a3, a4, a5) = (args[0], args[1], args[2], args[3], args[4], args[5]);
    if n == USER_SYSCALL_SOCKET_OPEN {
        if (a0 == USER_SOCKET_PROTOCOL_UDP || a0 == USER_SOCKET_PROTOCOL_TCP_STREAM) && zeros_from(&args, 1) { Some(SyscallAction::SocketOpen { protocol: a0 }) } else { None }
    } else if n == USER_SYSCALL_SOCKET_CONNECT {
        if a0 != 0 && a1 <= 0xffff_ffff && a1 != 0 && 1 <= a2 && a2 <= 0xffff && zeros_from(&args, 3) { Some(SyscallAction::SocketConnect { handle: a0, target: a1 as u32, port: a2 as u16 }) } else { None }
    } else if n == USER_SYSCALL_SOCKET_SEND {
        if a0 != 0 && a1 != 0 && 1 <= a2 && a2 <= USER_SOCKET_BUFFER_CAPACITY && zeros_from(&args, 3) { Some(SyscallAction::SocketSend { handle: a0, input_address: a1, input_length: a2 }) } else { None }
    } else if n == USER_SYSCALL_SOCKET_RECEIVE {
        if a0 != 0 && a1 != 0 && 1 <= a2 && a2 <= USER_SOCKET_BUFFER_CAPACITY && zeros_from(&args, 3) { Some(SyscallAction::SocketReceive { handle: a0, output_address: a1, output_capacity: a2 }) } else { None }
    } else if n == USER_SYSCALL_SOCKET_STATUS {
        if a0 != 0 && a1 != 0 && a2 == USER_SOCKET_STATUS_BYTES && zeros_from(&args, 3) { Some(SyscallAction::SocketStatus { handle: a0, output_address: a1, output_length: a2 }) } else { None }
    } else if n == USER_SYSCALL_SOCKET_SHUTDOWN {
        if a0 != 0 && (a1 == USER_SOCKET_SHUTDOWN_READ || a1 == USER_SOCKET_SHUTDOWN_WRITE || a1 == USER_SOCKET_SHUTDOWN_BOTH) && zeros_from(&args, 2) { Some(SyscallAction::SocketShutdown { handle: a0, direction: a1 }) } else { None }
    } else if n == USER_SYSCALL_SOCKET_CLOSE {
        if a0 != 0 && zeros_from(&args, 1) { Some(SyscallAction::SocketClose { handle: a0 }) } else { None }
    } else if n == USER_SYSCALL_SOCKET_BIND {
        if a0 != 0 && USER_SOCKET_LISTENER_PORT_MIN <= a1 && a1 <= 0xffff && zeros_from(&args, 2) { Some(SyscallAction::SocketBind { handle: a0, port: a1 as u16 }) } else { None }
    } else if n == USER_SYSCALL_SOCKET_LISTEN {
        if a0 != 0 && 1 <= a1 && a1 <= USER_SOCKET_LISTENER_BACKLOG_CAPACITY && zeros_from(&args, 2) { Some(SyscallAction::SocketListen { handle: a0, backlog: a1 }) } else { None }
    } else if n == USER_SYSCALL_SOCKET_ACCEPT {
        if a0 != 0 && zeros_from(&args, 1) { Some(SyscallAction::SocketAccept { handle: a0 }) } else { None }
    } else {
        None
    }
}

/// How many leading argument words call `n` reads; the rest must be zero.
pub open spec fn used_words(n: u64) -> int {
    if n == USER_SYSCALL_PING {
        0
    } else if n == USER_SYSCALL_ABI_VERSION {
        0
    } else if n == USER_SYSCALL_EXIT {
        1
    } else if n == USER_SYSCALL_YIELD {
        0
    } else if n == USER_SYSCALL_REPORT {
        2
    } else if n == USER_SYSCALL_WRITE {
        2
    } else if n == USER_SYSCALL_SLEEP {
        1
    } else if n == USER_SYSCALL_WAIT_CHILD {
        1
    } else if n == USER_SYSCALL_SYSTEM_INFO {
        2
    } else if n == USER_SYSCALL_READ_FILE {
        4
    } else if n == USER_SYSCALL_OPEN_FILE {
        2
    } else if n == USER_SYSCALL_READ_HANDLE {
        3
    } else if n == USER_SYSCALL_STAT_HANDLE {
        3
    } else if n == USER_SYSCALL_CLOSE_HANDLE {
        1
    } else if n == USER_SYSCALL_OPEN_FILE_WITH_RIGHTS {
        3
    } else if n == USER_SYSCALL_WRITE_HANDLE {
        3
    } else if n == USER_SYSCALL_WAIT_INPUT {
        3
    } else if n == USER_SYSCALL_CREATE_ENDPOINT {
        0
    } else if n == USER_SYSCALL_CONNECT_ENDPOINT {
        1
    } else if n == USER_SYSCALL_SEND_ENDPOINT {
        2
    } else if n == USER_SYSCALL_RECEIVE_ENDPOINT {
        3
    } else if n == USER_SYSCALL_CLOSE_ENDPOINT {
        1
    } else if n == USER_SYSCALL_CONSOLE_WRITE {
        4
    } else if n == USER_SYSCALL_CONSOLE_SET_INPUT {
        3
    } else if n == USER_SYSCALL_CONSOLE_CLEAR {
        1
    } else if n == USER_SYSCALL_READ_DIRECTORY {
        4
    } else if n == USER_SYSCALL_TRUNCATE_HANDLE {
        1
    } else if n == USER_SYSCALL_PROCESS_LAUNCH {
        3
    } else if n == USER_SYSCALL_PROCESS_STATUS {
        3
    } else if n == USER_SYSCALL_PROCESS_KILL {
        1
    } else if n == USER_SYSCALL_PROCESS_REAP {
        3
    } else if n == USER_SYSCALL_CREATE_DIRECTORY {
        3
    } else if n == USER_SYSCALL_REMOVE_PATH {
        3
    } else if n == USER_SYSCALL_NETWORK_CONFIG {
        2
    } else if n == USER_SYSCALL_UDP_EXCHANGE {
        6
    } else if n == USER_SYSCALL_TCP_EXCHANGE {
        6
    } else if n == USER_SYSCALL_SOCKET_OPEN {
        1
    } else if n == USER_SYSCALL_SOCKET_CONNECT {
        3
    } else if n == USER_SYSCALL_SOCKET_SEND {
        3
    } else if n == USER_SYSCALL_SOCKET_RECEIVE {
        3
    } else if n == USER_SYSCALL_SOCKET_STATUS {
        3
    } else if n == USER_SYSCALL_SOCKET_SHUTDOWN {
        2
    } else if n == USER_SYSCALL_SOCKET_CLOSE {
        1
    } else if n == USER_SYSCALL_SOCKET_BIND {
        2
    } else if n == USER_SYSCALL_SOCKET_LISTEN {
        2
    } else if n == USER_SYSCALL_SOCKET_ACCEPT {
        1
    } else {
        6
    }
}

/// The call numbers the kernel implements: every number up to the last
/// socket call but the reserved legacy send and receive.
pub open spec fn implemented(n: u64) -> bool {
    n <= USER_SYSCALL_SOCKET_ACCEPT && n != USER_SYSCALL_SEND && n != USER_SYSCALL_RECEIVE
}

/// What a system call with number `n` and argument words `a` asks for: an
/// unknown or reserved number is refused as such, and a known one whose
/// arguments are not of the shape its call accepts is an invalid argument.
pub open spec fn spec_dispatch(n: u64, a: Seq<u64>) -> Result<SyscallAction, SyscallError> {
    if !implemented(n) {
        Err(SyscallError::UnknownNumber)
    } else {
        let action = if n <= USER_SYSCALL_WAIT_INPUT {
            spec_action_a(n, a)
        } else if n <= USER_SYSCALL_TRUNCATE_HANDLE {
            spec_action_b(n, a)
        } else if n <= USER_SYSCALL_TCP_EXCHANGE {
            spec_action_c(n, a)
        } else {
            spec_action_d(n, a)
        };
        match action {
            Some(x) => Ok(x),
            None => Err(SyscallError::InvalidArgument),
        }
    }
}

/// Checks a system call's number and scalar arguments and says what the
/// kernel is to do; buffers are checked against the caller's mapping later.
pub fn dispatch(number: u64, args: [u64; 6]) -> (r: Result<SyscallAction, SyscallError>)
    ensures
        r == spec_dispatch(number, args@),
{
    if number > USER_SYSCALL_SOCKET_ACCEPT || number == USER_SYSCALL_SEND || number == USER_SYSCALL_RECEIVE {
        return Err(SyscallError::UnknownNumber);
    }
    let action = if number <= USER_SYSCALL_WAIT_INPUT {
        action_a(number, args)
    } else if number <= USER_SYSCALL_TRUNCATE_HANDLE {
        action_b(number, args)
    } else if number <= USER_SYSCALL_TCP_EXCHANGE {
        action_c(number, args)
    } else {
        action_d(number, args)
    };
    match action {
        Some(x) => Ok(x),
        None => Err(SyscallError::InvalidArgument),
    }
}

/// An accepted call never carries anything in the argument words it does
/// not read: they are all zero.
pub proof fn lemma_accepted_calls_leave_unused_words_zero(n: u64, a: Seq<u64>)
    requires
        a.len() == 6,
        spec_dispatch(n, a) is Ok,
    ensures
        forall|i: int| used_words(n) <= i < 6 ==> a[i] == 0,
{
}

/// The reserved legacy numbers and the unknown ones are refused as
/// unknown, whatever their arguments.
pub proof fn lemma_unknown_numbers_never_accepted(n: u64, a: Seq<u64>)
    requires
        !implemented(n),
    ensures
        spec_dispatch(n, a) == Err::<SyscallAction, SyscallError>(SyscallError::UnknownNumber),
{
}

} // verus!
