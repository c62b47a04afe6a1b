pub mod aarch64;
pub mod riscv64;
