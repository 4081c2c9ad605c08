//! A small register-based virtual CPU.
//!
//! The crate models a 16-bit machine: a bounded, byte-addressable memory
//! (`memory`), a file of seven named 16-bit registers, and a
//! fetch-decode-execute cycle over a fixed two-byte instruction encoding
//! (`machine`). Every operation carries a contract that pins down its
//! effect on the machine state, including the documented non-atomicity of
//! multi-byte and block memory operations.

pub mod machine;
pub mod memory;
