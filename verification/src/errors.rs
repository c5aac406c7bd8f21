//! The faults an executing machine can surface.

use vstd::prelude::*;

verus! {

/// A fault raised while decoding or executing instructions.
///
/// The reference architecture leaves several situations undefined; this
/// implementation reports each of them as a distinct error instead of
/// faulting the host process:
/// - an operand word in `32776..` can neither be read as a literal nor as a
///   register (`InvalidOperand`);
/// - a `mod` instruction with a zero divisor (`DivisionByZero`);
/// - an instruction whose operand words would lie beyond the 15-bit address
///   space (`OutOfBounds`);
/// - an `in` instruction executed while the input buffer is empty
///   (`InputExhausted`); the run loop reports `NeedInput` before this can
///   arise, so it is seen only when the opcode is invoked directly.
#[allow(missing_docs)]
#[derive(Debug, Clone, PartialEq, Eq)]
pub enum VMErrors {
    UnknownOpcode(u16),
    EmptyStack,
    UnknownCommand(String),
    InvalidOperand(u16),
    DivisionByZero,
    OutOfBounds,
    InputExhausted,
}

} // verus!
