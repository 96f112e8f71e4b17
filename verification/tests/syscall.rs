use genos::syscall::{
    console_capability_valid, console_handle, dispatch, error_code, lifecycle_capability_valid,
    lifecycle_handle, validate_user_buffer, SyscallAction, SyscallError,
};
use genos::abi::{
    USER_SYSCALL_ABI_VERSION as SYSCALL_ABI_VERSION,
    USER_SYSCALL_CLOSE_ENDPOINT as SYSCALL_CLOSE_ENDPOINT,
    USER_SYSCALL_CLOSE_HANDLE as SYSCALL_CLOSE_HANDLE,
    USER_SYSCALL_CONNECT_ENDPOINT as SYSCALL_CONNECT_ENDPOINT,
    USER_SYSCALL_CONSOLE_CLEAR as SYSCALL_CONSOLE_CLEAR,
    USER_SYSCALL_CONSOLE_SET_INPUT as SYSCALL_CONSOLE_SET_INPUT,
    USER_SYSCALL_CONSOLE_WRITE as SYSCALL_CONSOLE_WRITE,
    USER_SYSCALL_CREATE_DIRECTORY as SYSCALL_CREATE_DIRECTORY,
    USER_SYSCALL_CREATE_ENDPOINT as SYSCALL_CREATE_ENDPOINT,
    USER_SYSCALL_EXIT as SYSCALL_EXIT,
    USER_SYSCALL_OPEN_FILE as SYSCALL_OPEN_FILE,
    USER_SYSCALL_OPEN_FILE_WITH_RIGHTS as SYSCALL_OPEN_FILE_WITH_RIGHTS,
    USER_SYSCALL_PING as SYSCALL_PING,
    USER_SYSCALL_PROCESS_KILL as SYSCALL_PROCESS_KILL,
    USER_SYSCALL_PROCESS_LAUNCH as SYSCALL_PROCESS_LAUNCH,
    USER_SYSCALL_PROCESS_REAP as SYSCALL_PROCESS_REAP,
    USER_SYSCALL_PROCESS_STATUS as SYSCALL_PROCESS_STATUS,
    USER_SYSCALL_READ_DIRECTORY as SYSCALL_READ_DIRECTORY,
    USER_SYSCALL_READ_FILE as SYSCALL_READ_FILE,
    USER_SYSCALL_READ_HANDLE as SYSCALL_READ_HANDLE,
    USER_SYSCALL_RECEIVE as SYSCALL_RECEIVE,
    USER_SYSCALL_RECEIVE_ENDPOINT as SYSCALL_RECEIVE_ENDPOINT,
    USER_SYSCALL_REMOVE_PATH as SYSCALL_REMOVE_PATH,
    USER_SYSCALL_REPORT as SYSCALL_REPORT,
    USER_SYSCALL_SEND as SYSCALL_SEND,
    USER_SYSCALL_SEND_ENDPOINT as SYSCALL_SEND_ENDPOINT,
    USER_SYSCALL_SLEEP as SYSCALL_SLEEP,
    USER_SYSCALL_SOCKET_ACCEPT as SYSCALL_SOCKET_ACCEPT,
    USER_SYSCALL_SOCKET_BIND as SYSCALL_SOCKET_BIND,
    USER_SYSCALL_SOCKET_CLOSE as SYSCALL_SOCKET_CLOSE,
    USER_SYSCALL_SOCKET_CONNECT as SYSCALL_SOCKET_CONNECT,
    USER_SYSCALL_SOCKET_LISTEN as SYSCALL_SOCKET_LISTEN,
    USER_SYSCALL_SOCKET_OPEN as SYSCALL_SOCKET_OPEN,
    USER_SYSCALL_SOCKET_RECEIVE as SYSCALL_SOCKET_RECEIVE,
    USER_SYSCALL_SOCKET_SEND as SYSCALL_SOCKET_SEND,
    USER_SYSCALL_SOCKET_SHUTDOWN as SYSCALL_SOCKET_SHUTDOWN,
    USER_SYSCALL_SOCKET_STATUS as SYSCALL_SOCKET_STATUS,
    USER_SYSCALL_STAT_HANDLE as SYSCALL_STAT_HANDLE,
    USER_SYSCALL_SYSTEM_INFO as SYSCALL_SYSTEM_INFO,
    USER_SYSCALL_TRUNCATE_HANDLE as SYSCALL_TRUNCATE_HANDLE,
    USER_SYSCALL_WAIT_CHILD as SYSCALL_WAIT_CHILD,
    USER_SYSCALL_WAIT_INPUT as SYSCALL_WAIT_INPUT,
    USER_SYSCALL_WRITE as SYSCALL_WRITE,
    USER_SYSCALL_WRITE_HANDLE as SYSCALL_WRITE_HANDLE,
    USER_SYSCALL_YIELD as SYSCALL_YIELD,
    USER_SYSCALL_UDP_EXCHANGE as SYSCALL_UDP_EXCHANGE,
    USER_SYSCALL_TCP_EXCHANGE as SYSCALL_TCP_EXCHANGE,
    USER_SYSCALL_NETWORK_CONFIG as SYSCALL_NETWORK_CONFIG,
    USER_ABI_VERSION, USER_PING_REPLY as PING_REPLY, USER_SYSTEM_INFO_BYTES,
};

use genos::abi::{USER_ERROR_INVALID_ARGUMENT, USER_ERROR_UNAVAILABLE, USER_ERROR_UNKNOWN_SYSCALL};

#[test]
fn console_capabilities_are_tagged_exact_and_process_local() {
    let owned = console_handle(16, 7);
    assert!(console_capability_valid(owned, owned));
    assert!(!console_capability_valid(0, 0));
    assert!(!console_capability_valid(owned, console_handle(17, 7)));
    assert!(!console_capability_valid(owned, console_handle(16, 8)));
    assert!(!console_capability_valid(owned, owned & !(0xff << 56)));
}

#[test]
fn lifecycle_capabilities_are_tagged_and_exact() {
    let owned = lifecycle_handle(19);
    assert!(lifecycle_capability_valid(owned, owned));
    assert!(!lifecycle_capability_valid(0, 0));
    assert!(!lifecycle_capability_valid(owned, lifecycle_handle(20)));
    assert!(!lifecycle_capability_valid(owned, owned & !(0xff << 56)));
}

#[test]
fn user_buffers_must_stay_inside_the_owned_mapping() {
    assert!(validate_user_buffer(0x4000, 8, 0x4000, 0x1000));
    assert!(validate_user_buffer(0x4ff8, 8, 0x4000, 0x1000));
    assert!(!validate_user_buffer(0x3fff, 8, 0x4000, 0x1000));
    assert!(!validate_user_buffer(0x4ff9, 8, 0x4000, 0x1000));
    assert!(!validate_user_buffer(u64::MAX - 3, 8, 0x4000, 0x1000));
    assert!(!validate_user_buffer(0x4000, 0, 0x4000, 0x1000));
}

#[test]
fn error_codes_are_the_abi_values() {
    assert_eq!(error_code(SyscallError::UnknownNumber), USER_ERROR_UNKNOWN_SYSCALL);
    assert_eq!(error_code(SyscallError::InvalidArgument), USER_ERROR_INVALID_ARGUMENT);
    assert_eq!(error_code(SyscallError::Unavailable), USER_ERROR_UNAVAILABLE);
}

#[test]
fn handles_carry_their_tag_and_fields() {
    assert_eq!(console_handle(16, 7), 0xc110_0000_0000_0007);
    assert_eq!(lifecycle_handle(19), 0xc200_0000_0000_0013);
    assert_eq!(console_handle(1, u64::MAX), 0xc101_ffff_ffff_ffff);
}

#[test]
fn known_calls_have_stable_results() {
    assert_eq!(
        dispatch(SYSCALL_PING, [0; 6]),
        Ok(SyscallAction::Return(PING_REPLY))
    );
    assert_eq!(
        dispatch(SYSCALL_ABI_VERSION, [0; 6]),
        Ok(SyscallAction::Return(USER_ABI_VERSION))
    );
    assert_eq!(
        dispatch(SYSCALL_EXIT, [7, 0, 0, 0, 0, 0]),
        Ok(SyscallAction::Exit(7))
    );
    assert_eq!(dispatch(SYSCALL_YIELD, [0; 6]), Ok(SyscallAction::Yield));
    assert_eq!(
        dispatch(SYSCALL_REPORT, [0x4000, 8, 0, 0, 0, 0]),
        Ok(SyscallAction::Report {
            address: 0x4000,
            length: 8
        })
    );
    assert_eq!(
        dispatch(SYSCALL_WRITE, [0x5000, 12, 0, 0, 0, 0]),
        Ok(SyscallAction::Write {
            address: 0x5000,
            length: 12
        })
    );
    assert_eq!(
        dispatch(SYSCALL_SLEEP, [25, 0, 0, 0, 0, 0]),
        Ok(SyscallAction::Sleep { ticks: 25 })
    );
    assert_eq!(
        dispatch(SYSCALL_WAIT_CHILD, [8, 0, 0, 0, 0, 0]),
        Ok(SyscallAction::WaitChild { pid: 8 })
    );
    assert_eq!(
        dispatch(
            SYSCALL_SYSTEM_INFO,
            [
                0x6000,
                USER_SYSTEM_INFO_BYTES,
                0,
                0,
                0,
                0,
            ],
        ),
        Ok(SyscallAction::SystemInfo {
            address: 0x6000,
            length: USER_SYSTEM_INFO_BYTES,
        })
    );
    assert_eq!(
        dispatch(SYSCALL_READ_FILE, [0x5000, 11, 0x6000, 128, 0, 0]),
        Ok(SyscallAction::ReadFile {
            path_address: 0x5000,
            path_length: 11,
            output_address: 0x6000,
            output_capacity: 128
        })
    );
    assert_eq!(
        dispatch(SYSCALL_OPEN_FILE, [0x5000, 11, 0, 0, 0, 0]),
        Ok(SyscallAction::OpenFile {
            path_address: 0x5000,
            path_length: 11,
        })
    );
    assert_eq!(
        dispatch(SYSCALL_READ_HANDLE, [0x101, 0x6000, 64, 0, 0, 0]),
        Ok(SyscallAction::ReadHandle {
            handle: 0x101,
            output_address: 0x6000,
            output_capacity: 64,
        })
    );
    assert_eq!(
        dispatch(SYSCALL_STAT_HANDLE, [0x101, 0x6000, 32, 0, 0, 0]),
        Ok(SyscallAction::StatHandle {
            handle: 0x101,
            output_address: 0x6000,
            output_length: 32,
        })
    );
    assert_eq!(
        dispatch(SYSCALL_CLOSE_HANDLE, [0x101, 0, 0, 0, 0, 0]),
        Ok(SyscallAction::CloseHandle { handle: 0x101 })
    );
    assert_eq!(
        dispatch(SYSCALL_OPEN_FILE_WITH_RIGHTS, [0x5000, 14, 3, 0, 0, 0]),
        Ok(SyscallAction::OpenFileWithRights {
            path_address: 0x5000,
            path_length: 14,
            rights: 3,
        })
    );
    assert_eq!(
        dispatch(SYSCALL_WRITE_HANDLE, [0x101, 0x6000, 64, 0, 0, 0]),
        Ok(SyscallAction::WriteHandle {
            handle: 0x101,
            input_address: 0x6000,
            input_length: 64,
        })
    );
    assert_eq!(
        dispatch(SYSCALL_WAIT_INPUT, [0x6000, 32, 1, 0, 0, 0]),
        Ok(SyscallAction::WaitInput {
            output_address: 0x6000,
            output_length: 32,
            mask: 1,
        })
    );
    assert_eq!(
        dispatch(SYSCALL_CREATE_ENDPOINT, [0; 6]),
        Ok(SyscallAction::CreateEndpoint)
    );
    assert_eq!(
        dispatch(SYSCALL_CONNECT_ENDPOINT, [3, 0, 0, 0, 0, 0]),
        Ok(SyscallAction::ConnectEndpoint { pid: 3 })
    );
    assert_eq!(
        dispatch(SYSCALL_SEND_ENDPOINT, [0x201, 0xfeed, 0, 0, 0, 0]),
        Ok(SyscallAction::SendEndpoint {
            handle: 0x201,
            value: 0xfeed,
        })
    );
    assert_eq!(
        dispatch(SYSCALL_RECEIVE_ENDPOINT, [0x201, 0x6000, 16, 0, 0, 0]),
        Ok(SyscallAction::ReceiveEndpoint {
            handle: 0x201,
            output_address: 0x6000,
            output_length: 16,
        })
    );
    assert_eq!(
        dispatch(SYSCALL_CLOSE_ENDPOINT, [0x201, 0, 0, 0, 0, 0]),
        Ok(SyscallAction::CloseEndpoint { handle: 0x201 })
    );
    assert_eq!(
        dispatch(SYSCALL_CONSOLE_WRITE, [0xc1, 0x6000, 12, 1, 0, 0]),
        Ok(SyscallAction::ConsoleWrite {
            handle: 0xc1,
            address: 0x6000,
            length: 12,
            kind: 1,
        })
    );
    assert_eq!(
        dispatch(SYSCALL_CONSOLE_SET_INPUT, [0xc1, 0, 0, 0, 0, 0]),
        Ok(SyscallAction::ConsoleSetInput {
            handle: 0xc1,
            address: 0,
            length: 0,
        })
    );
    assert_eq!(
        dispatch(SYSCALL_CONSOLE_CLEAR, [0xc1, 0, 0, 0, 0, 0]),
        Ok(SyscallAction::ConsoleClear { handle: 0xc1 })
    );
    assert_eq!(
        dispatch(SYSCALL_READ_DIRECTORY, [0x101, 3, 0x6000, 96, 0, 0]),
        Ok(SyscallAction::ReadDirectory {
            handle: 0x101,
            cursor: 3,
            output_address: 0x6000,
            output_length: 96,
        })
    );
    assert_eq!(
        dispatch(SYSCALL_TRUNCATE_HANDLE, [0x101, 0, 0, 0, 0, 0]),
        Ok(SyscallAction::TruncateHandle { handle: 0x101 })
    );
    assert_eq!(
        dispatch(SYSCALL_PROCESS_LAUNCH, [0xc201, 1, 1, 0, 0, 0]),
        Ok(SyscallAction::ProcessLaunch {
            supervisor: 0xc201,
            image: 1,
            mode: 1,
        })
    );
    assert_eq!(
        dispatch(SYSCALL_PROCESS_STATUS, [0xd101, 0x6000, 64, 0, 0, 0]),
        Ok(SyscallAction::ProcessStatus {
            handle: 0xd101,
            output_address: 0x6000,
            output_length: 64,
        })
    );
    assert_eq!(
        dispatch(SYSCALL_PROCESS_KILL, [0xd101, 0, 0, 0, 0, 0]),
        Ok(SyscallAction::ProcessKill { handle: 0xd101 })
    );
    assert_eq!(
        dispatch(SYSCALL_PROCESS_REAP, [0xd101, 0x6000, 64, 0, 0, 0]),
        Ok(SyscallAction::ProcessReap {
            handle: 0xd101,
            output_address: 0x6000,
            output_length: 64,
        })
    );
    assert_eq!(
        dispatch(SYSCALL_CREATE_DIRECTORY, [0x101, 0x5000, 5, 0, 0, 0]),
        Ok(SyscallAction::CreateDirectory {
            parent: 0x101,
            name_address: 0x5000,
            name_length: 5,
        })
    );
    assert_eq!(
        dispatch(SYSCALL_REMOVE_PATH, [0x101, 0x5000, 5, 0, 0, 0]),
        Ok(SyscallAction::RemovePath {
            parent: 0x101,
            name_address: 0x5000,
            name_length: 5,
        })
    );
    assert_eq!(
        dispatch(SYSCALL_SOCKET_OPEN, [1, 0, 0, 0, 0, 0]),
        Ok(SyscallAction::SocketOpen { protocol: 1 })
    );
    assert_eq!(
        dispatch(SYSCALL_SOCKET_CONNECT, [0xe701, 0x0a00_0202, 443, 0, 0, 0]),
        Ok(SyscallAction::SocketConnect {
            handle: 0xe701,
            target: 0x0a00_0202,
            port: 443,
        })
    );
    assert_eq!(
        dispatch(SYSCALL_SOCKET_BIND, [0xe701, 18081, 0, 0, 0, 0]),
        Ok(SyscallAction::SocketBind {
            handle: 0xe701,
            port: 18081,
        })
    );
    assert_eq!(
        dispatch(SYSCALL_SOCKET_LISTEN, [0xe701, 2, 0, 0, 0, 0]),
        Ok(SyscallAction::SocketListen {
            handle: 0xe701,
            backlog: 2,
        })
    );
    assert_eq!(
        dispatch(SYSCALL_SOCKET_ACCEPT, [0xe701, 0, 0, 0, 0, 0]),
        Ok(SyscallAction::SocketAccept { handle: 0xe701 })
    );
    assert_eq!(
        dispatch(SYSCALL_SOCKET_SEND, [0xe701, 0x5000, 64, 0, 0, 0]),
        Ok(SyscallAction::SocketSend {
            handle: 0xe701,
            input_address: 0x5000,
            input_length: 64,
        })
    );
    assert_eq!(
        dispatch(SYSCALL_SOCKET_RECEIVE, [0xe701, 0x6000, 128, 0, 0, 0]),
        Ok(SyscallAction::SocketReceive {
            handle: 0xe701,
            output_address: 0x6000,
            output_capacity: 128,
        })
    );
    assert_eq!(
        dispatch(SYSCALL_SOCKET_STATUS, [0xe701, 0x6000, 40, 0, 0, 0]),
        Ok(SyscallAction::SocketStatus {
            handle: 0xe701,
            output_address: 0x6000,
            output_length: 40,
        })
    );
    assert_eq!(
        dispatch(SYSCALL_SOCKET_SHUTDOWN, [0xe701, 3, 0, 0, 0, 0]),
        Ok(SyscallAction::SocketShutdown {
            handle: 0xe701,
            direction: 3,
        })
    );
    assert_eq!(
        dispatch(SYSCALL_SOCKET_CLOSE, [0xe701, 0, 0, 0, 0, 0]),
        Ok(SyscallAction::SocketClose { handle: 0xe701 })
    );
}

#[test]
fn legacy_message_calls_are_reserved_and_unimplemented() {
    assert_eq!(
        dispatch(SYSCALL_SEND, [7, 0xfeed, 0, 0, 0, 0]),
        Err(SyscallError::UnknownNumber)
    );
    assert_eq!(
        dispatch(SYSCALL_SEND, [0; 6]),
        Err(SyscallError::UnknownNumber)
    );
    assert_eq!(
        dispatch(SYSCALL_RECEIVE, [0; 6]),
        Err(SyscallError::UnknownNumber)
    );
}

#[test]
fn syscall_arguments_are_rejected_before_dispatch() {
    assert_eq!(
        dispatch(SYSCALL_PING, [1, 0, 0, 0, 0, 0]),
        Err(SyscallError::InvalidArgument)
    );
    assert_eq!(
        dispatch(SYSCALL_EXIT, [256, 0, 0, 0, 0, 0]),
        Err(SyscallError::InvalidArgument)
    );
    assert_eq!(
        dispatch(SYSCALL_REPORT, [0, 8, 0, 0, 0, 0]),
        Err(SyscallError::InvalidArgument)
    );
    assert_eq!(
        dispatch(SYSCALL_REPORT, [0x4000, 16, 0, 0, 0, 0]),
        Err(SyscallError::InvalidArgument)
    );
    assert_eq!(
        dispatch(SYSCALL_WRITE, [0x4000, 81, 0, 0, 0, 0]),
        Err(SyscallError::InvalidArgument)
    );
    assert_eq!(
        dispatch(SYSCALL_SLEEP, [0; 6]),
        Err(SyscallError::InvalidArgument)
    );
    assert_eq!(
        dispatch(SYSCALL_SEND, [0, 1, 0, 0, 0, 0]),
        Err(SyscallError::UnknownNumber)
    );
    assert_eq!(
        dispatch(SYSCALL_SYSTEM_INFO, [0x6000, 39, 0, 0, 0, 0]),
        Err(SyscallError::InvalidArgument)
    );
    assert_eq!(
        dispatch(SYSCALL_READ_FILE, [0x5000, 65, 0x6000, 128, 0, 0]),
        Err(SyscallError::InvalidArgument)
    );
    assert_eq!(
        dispatch(SYSCALL_READ_FILE, [0x5000, 11, 0x6000, 129, 0, 0]),
        Err(SyscallError::InvalidArgument)
    );
    assert_eq!(
        dispatch(SYSCALL_OPEN_FILE, [0x5000, 0, 0, 0, 0, 0]),
        Err(SyscallError::InvalidArgument)
    );
    assert_eq!(
        dispatch(SYSCALL_READ_HANDLE, [0, 0x6000, 64, 0, 0, 0]),
        Err(SyscallError::InvalidArgument)
    );
    assert_eq!(
        dispatch(SYSCALL_STAT_HANDLE, [0x101, 0x6000, 31, 0, 0, 0]),
        Err(SyscallError::InvalidArgument)
    );
    assert_eq!(
        dispatch(SYSCALL_CLOSE_HANDLE, [0, 0, 0, 0, 0, 0]),
        Err(SyscallError::InvalidArgument)
    );
    assert_eq!(
        dispatch(SYSCALL_OPEN_FILE_WITH_RIGHTS, [0x5000, 14, 8, 0, 0, 0]),
        Err(SyscallError::InvalidArgument)
    );
    assert_eq!(
        dispatch(SYSCALL_WRITE_HANDLE, [0x101, 0x6000, 129, 0, 0, 0]),
        Err(SyscallError::InvalidArgument)
    );
    assert_eq!(
        dispatch(SYSCALL_TRUNCATE_HANDLE, [0, 0, 0, 0, 0, 0]),
        Err(SyscallError::InvalidArgument)
    );
    assert_eq!(
        dispatch(SYSCALL_CREATE_DIRECTORY, [0x101, 0, 5, 0, 0, 0]),
        Err(SyscallError::InvalidArgument)
    );
    assert_eq!(
        dispatch(SYSCALL_REMOVE_PATH, [0x101, 0x5000, 0, 0, 0, 0]),
        Err(SyscallError::InvalidArgument)
    );
    assert_eq!(
        dispatch(SYSCALL_WAIT_INPUT, [0x6000, 31, 1, 0, 0, 0]),
        Err(SyscallError::InvalidArgument)
    );
    assert_eq!(
        dispatch(SYSCALL_WAIT_INPUT, [0x6000, 32, 4, 0, 0, 0]),
        Err(SyscallError::InvalidArgument)
    );
    assert_eq!(
        dispatch(SYSCALL_SOCKET_OPEN, [3, 0, 0, 0, 0, 0]),
        Err(SyscallError::InvalidArgument)
    );
    assert_eq!(
        dispatch(SYSCALL_SOCKET_CONNECT, [0xe701, 0, 443, 0, 0, 0]),
        Err(SyscallError::InvalidArgument)
    );
    assert_eq!(
        dispatch(SYSCALL_SOCKET_BIND, [0xe701, 1023, 0, 0, 0, 0]),
        Err(SyscallError::InvalidArgument)
    );
    assert_eq!(
        dispatch(SYSCALL_SOCKET_LISTEN, [0xe701, 3, 0, 0, 0, 0]),
        Err(SyscallError::InvalidArgument)
    );
    assert_eq!(
        dispatch(SYSCALL_SOCKET_ACCEPT, [0, 0, 0, 0, 0, 0]),
        Err(SyscallError::InvalidArgument)
    );
    assert_eq!(
        dispatch(SYSCALL_SOCKET_SEND, [0xe701, 0x5000, 129, 0, 0, 0]),
        Err(SyscallError::InvalidArgument)
    );
    assert_eq!(
        dispatch(SYSCALL_SOCKET_STATUS, [0xe701, 0x6000, 39, 0, 0, 0]),
        Err(SyscallError::InvalidArgument)
    );
    assert_eq!(
        dispatch(SYSCALL_SOCKET_SHUTDOWN, [0xe701, 0, 0, 0, 0, 0]),
        Err(SyscallError::InvalidArgument)
    );
    assert_eq!(dispatch(99, [0; 6]), Err(SyscallError::UnknownNumber));
}

#[test]
fn exchange_and_config_calls_check_every_word() {
    assert_eq!(
        dispatch(SYSCALL_UDP_EXCHANGE, [0x0a00_0202, 53, 0x5000, 12, 0x6000, 128]),
        Ok(SyscallAction::UdpExchange {
            target: 0x0a00_0202,
            port: 53,
            input_address: 0x5000,
            input_length: 12,
            output_address: 0x6000,
            output_capacity: 128,
        })
    );
    assert_eq!(
        dispatch(SYSCALL_TCP_EXCHANGE, [1 << 32, 80, 0x5000, 12, 0x6000, 128]),
        Err(SyscallError::InvalidArgument)
    );
    assert_eq!(
        dispatch(SYSCALL_TCP_EXCHANGE, [0x0a00_0202, 80, 0x5000, 12, 0x6000, 129]),
        Err(SyscallError::InvalidArgument)
    );
    assert_eq!(
        dispatch(SYSCALL_NETWORK_CONFIG, [0x6000, 24, 0, 0, 0, 0]),
        Ok(SyscallAction::NetworkConfig { output_address: 0x6000, output_length: 24 })
    );
    assert_eq!(
        dispatch(SYSCALL_NETWORK_CONFIG, [0x6000, 24, 0, 0, 0, 1]),
        Err(SyscallError::InvalidArgument)
    );
    assert_eq!(dispatch(48, [0; 6]), Err(SyscallError::UnknownNumber));
    assert_eq!(dispatch(u64::MAX, [0; 6]), Err(SyscallError::UnknownNumber));
}
