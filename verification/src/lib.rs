//! PicoOS kernel logic: page allocation, the per-hart task table, scheduling,
//! syscalls and IPC, trap-frame handling and the small encoders the kernel
//! uses to talk to RISC-V hardware.
pub mod arch;
pub mod platform;
pub mod kernel;
pub mod drivers;
