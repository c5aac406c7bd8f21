//! The instruction set: the twenty-two opcodes, their arities, and the
//! decoder that maps a memory word to an opcode.

use vstd::prelude::*;
use crate::errors::VMErrors;

verus! {

/// One of the twenty-two instructions of the architecture, in numbering
/// order: the word `0` decodes to `Halt`, `21` to `Noop`.
#[allow(missing_docs)]
#[derive(Debug, Clone, Copy, PartialEq, Eq, Structural)]
pub enum OpCode {
    Halt,
    SetReg,
    Push,
    Pop,
    Eq,
    Gt,
    Jmp,
    Jt,
    Jf,
    Add,
    Mult,
    Mod,
    And,
    Or,
    Not,
    Rmem,
    Wmem,
    Call,
    Ret,
    Out,
    In,
    Noop,
}

/// The opcode a memory word denotes, or `None` for the words outside the
/// valid identifiers.
pub open spec fn opcode_of(w: u16) -> Option<OpCode> {
    match w {
        0u16 => Some(OpCode::Halt),
        1u16 => Some(OpCode::SetReg),
        2u16 => Some(OpCode::Push),
        3u16 => Some(OpCode::Pop),
        4u16 => Some(OpCode::Eq),
        5u16 => Some(OpCode::Gt),
        6u16 => Some(OpCode::Jmp),
        7u16 => Some(OpCode::Jt),
        8u16 => Some(OpCode::Jf),
        9u16 => Some(OpCode::Add),
        10u16 => Some(OpCode::Mult),
        11u16 => Some(OpCode::Mod),
        12u16 => Some(OpCode::And),
        13u16 => Some(OpCode::Or),
        14u16 => Some(OpCode::Not),
        15u16 => Some(OpCode::Rmem),
        16u16 => Some(OpCode::Wmem),
        17u16 => Some(OpCode::Call),
        18u16 => Some(OpCode::Ret),
        19u16 => Some(OpCode::Out),
        20u16 => Some(OpCode::In),
        21u16 => Some(OpCode::Noop),
        _ => None,
    }
}

/// How many operand words follow the opcode word.
pub open spec fn arity(op: OpCode) -> nat {
    match op {
        OpCode::Halt => 0,
        OpCode::SetReg => 2,
        OpCode::Push => 1,
        OpCode::Pop => 1,
        OpCode::Eq => 3,
        OpCode::Gt => 3,
        OpCode::Jmp => 1,
        OpCode::Jt => 2,
        OpCode::Jf => 2,
        OpCode::Add => 3,
        OpCode::Mult => 3,
        OpCode::Mod => 3,
        OpCode::And => 3,
        OpCode::Or => 3,
        OpCode::Not => 2,
        OpCode::Rmem => 2,
        OpCode::Wmem => 2,
        OpCode::Call => 1,
        OpCode::Ret => 0,
        OpCode::Out => 1,
        OpCode::In => 1,
        OpCode::Noop => 0,
    }
}

impl OpCode {
    /// Decode a word: every word in `0..=21` yields its opcode, and every
    /// other word is rejected with `UnknownOpcode` carrying that word.
    pub fn new(value: u16) -> (r: Result<OpCode, VMErrors>)
        ensures
            r == match opcode_of(value) {
                Some(op) => Result::<OpCode, VMErrors>::Ok(op),
                None => Result::<OpCode, VMErrors>::Err(VMErrors::UnknownOpcode(value)),
            },
    {
        match value {
            0 => Ok(OpCode::Halt),
            1 => Ok(OpCode::SetReg),
            2 => Ok(OpCode::Push),
            3 => Ok(OpCode::Pop),
            4 => Ok(OpCode::Eq),
            5 => Ok(OpCode::Gt),
            6 => Ok(OpCode::Jmp),
            7 => Ok(OpCode::Jt),
            8 => Ok(OpCode::Jf),
            9 => Ok(OpCode::Add),
            10 => Ok(OpCode::Mult),
            11 => Ok(OpCode::Mod),
            12 => Ok(OpCode::And),
            13 => Ok(OpCode::Or),
            14 => Ok(OpCode::Not),
            15 => Ok(OpCode::Rmem),
            16 => Ok(OpCode::Wmem),
            17 => Ok(OpCode::Call),
            18 => Ok(OpCode::Ret),
            19 => Ok(OpCode::Out),
            20 => Ok(OpCode::In),
            21 => Ok(OpCode::Noop),
            _ => Err(VMErrors::UnknownOpcode(value)),
        }
    }
}

} // verus!
