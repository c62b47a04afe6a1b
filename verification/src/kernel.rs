pub mod banner;
pub mod contract;
pub mod cpu;
pub mod hart_local;
pub mod heap;
pub mod ipc;
pub mod irq_cell;
pub mod log;
pub mod memory;
pub mod selftest;
pub mod state;
pub mod sys;
pub mod task;
pub mod ticks;
pub mod timer;
pub mod trap_frame;
