//! A simulator for a small subset of the 32-bit RISC-V instruction set.
//!
//! The crate models a single-core machine: a byte-addressable memory with
//! little-endian word access, a register file whose register 0 is hardwired
//! to zero, a memory-mapped serial port, an instruction decoder, and a
//! fetch-decode-execute engine.  Every component carries a contract that
//! pins its behaviour down to the bit level, and the step function of the
//! whole machine is specified against a mathematical interpreter.

pub mod cpu;
pub mod error;
pub mod instruction;
pub mod memory;
pub mod serial;
pub mod simulator;
pub mod x_registers;
