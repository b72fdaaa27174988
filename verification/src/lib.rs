//! An emulator and toolchain for a fictional 8-bit console modeled on the
//! MOS 6502 family.
//!
//! The crate has four parts:
//! - [`memory`]: the 64 KiB flat store with its memory-mapped device regions;
//! - [`isa`]: the frozen opcode table shared by the CPU and the assembler,
//!   together with the instruction decoder and executor;
//! - [`cpu`]: the fetch-decode-execute core with registers, flags and stack;
//! - [`compiler`]: the two-pass assembler from source text to a flat binary.
//!
//! The CPU core and the assembler agree bit for bit on the opcode table: both
//! are derived from the single table in [`isa`], and the round-trip lemmas
//! there prove that encoding and decoding are mutually inverse.

pub mod compiler;
pub mod cpu;
pub mod isa;
pub mod memory;
