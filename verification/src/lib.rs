pub mod abi;
pub mod capability;
pub mod display;
pub mod elf;
pub mod exception;
pub mod input;
pub mod ipv6;
pub mod net;
pub mod protection;
pub mod recovery;
pub mod request;
pub mod serial_transport;
pub mod strings;
pub mod wire;
pub mod socket;
pub mod physmem;
pub mod syscall;
pub mod rtc;
pub mod ramfs;
pub mod storage;
pub mod network;
pub mod paging;
pub mod serial;
pub mod network_stack;
pub mod handshake;
pub mod client;
pub mod boot_image;
pub mod interrupts;
pub mod block_cache;
pub mod network_device;
pub mod ipc;
pub mod dhcp;
pub mod page_table;
