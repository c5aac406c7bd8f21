//! A verified interpreter for a small fixed architecture: 15-bit addressable
//! memory of 16-bit words, eight registers, and an unbounded stack.
//!
//! The crate models the machine as a mathematical state (`state::State`) and
//! proves that every opcode implementation performs exactly the transition
//! that its specification function describes.

pub mod arch;
pub mod codec;
pub mod coins;
pub mod errors;
pub mod isa;
pub mod meta;
pub mod pathing;
pub mod state;
pub mod teleporter;
pub mod vm;

use vstd::prelude::*;

verus! {

/// The architectural modulus: arithmetic wraps at this value, and operand
/// words at or above it name registers.
pub const WORDSIZE: u16 = 32768;

} // verus!
