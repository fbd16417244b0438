//! A functional instruction-set simulator for a 32-bit MIPS-family
//! (R3000-style) processor core.
//!
//! The crate models three components, composed bottom-up:
//! - byte-addressable memory devices: a writable DRAM and a read-only
//!   boot ROM, both with little-endian 8/16/32-bit access (`memory`);
//! - a bus that routes physical addresses to the device whose range
//!   contains them (`bus`);
//! - a CPU holding the architectural state, which translates virtual
//!   addresses, fetches, decodes and executes instructions with
//!   branch-delay-slot semantics (`cpu`).
//!
//! Every executable function carries a contract stating its effect over a
//! mathematical view of the machine state; `laws` proves the architectural
//! invariants that relate several operations.

pub mod bus;
pub mod cpu;
pub mod dump;
pub mod laws;
pub mod memory;
pub mod words;
