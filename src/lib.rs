//! A 64-bit RISC-V core: memory, bus, control and status registers, and the
//! fetch/decode/execute engine, with each operation stated as a contract.

pub mod exception;
pub mod param;
pub mod dram;
pub mod bus;
pub mod csr;
pub mod decode;
pub mod cpu;
pub mod register;
