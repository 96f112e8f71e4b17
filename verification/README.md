# genos

The logic of a small x86-64 hobby operating system kernel and its UEFI
bootloader, written in Verus: the functions in `src/` carry contracts that
Verus proves, and the properties the kernel relies on stand as proof
functions beside the code. Two small wrappers in `src/strings.rs` call
into the standard library (`str::trim` and `core::str::from_utf8`); their
contracts restate the standard library's documentation and are trusted,
not proved.

## Layout

- `src/abi.rs` — the user/kernel ABI: boot information, user structures,
  system-call numbers and limits.
- `src/boot_image.rs` — the bootloader's checks on the kernel ELF image, the
  physical range it occupies, the copy each segment asks for, and the
  firmware memory map handed to the kernel.
- `src/elf.rs`, `src/ramfs.rs`, `src/storage.rs`, `src/block_cache.rs` —
  user executables, the boot ramdisk, the on-disk snapshot format, the
  write-back sector cache and the alternating-slot snapshot commit.
- `src/physmem.rs`, `src/paging.rs`, `src/protection.rs`, `src/page_table.rs`
  — the frame allocator, address spaces, page protection rules and the
  transactional cloning of supervisor page tables.
- `src/syscall.rs` (system-call dispatch and validation), `src/capability.rs`, `src/request.rs`, `src/ipc.rs`,
  `src/socket.rs` — system-call results, capability handles, user requests,
  endpoint queues and user sockets.
- `src/net.rs`, `src/wire.rs`, `src/network.rs`, `src/network_stack.rs`,
  `src/handshake.rs`, `src/client.rs`, `src/dhcp.rs`, `src/ipv6.rs`,
  `src/network_device.rs`
  — packet formats, the TCP/UDP/IPv4/IPv6 state machines, the poll-driven
  network stack and the decisions of the network card drivers.
- `src/input.rs`, `src/display/` — keyboard and mouse decoding, screen
  geometry, text, the stroke font, the shell buffer and window management.
- `src/interrupts.rs`, `src/exception.rs`, `src/serial.rs`,
  `src/serial_transport.rs`, `src/rtc.rs`, `src/recovery.rs` — interrupt
  counters, exception policy, serial output, the real-time clock and the
  recovery console.
- `tests/` — executable tests of the library.
- `app/` — a host-side front end that reads images from files and prints
  what the library makes of them.

Hardware access (port and memory-mapped I/O, firmware calls, drawing into
the framebuffer) is not part of the library: the library decides, a driver
performs.
