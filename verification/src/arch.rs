//! The word and operand model shared by every opcode: 16-bit words,
//! 15-bit architectural values, register references, and the modular
//! arithmetic the executor performs.

use vstd::prelude::*;

verus! {

/// Number of addressable memory words: the full 15-bit address space.
pub const MEM_WORDS: usize = 32768;

/// A word in operand position denotes a literal architectural value.
pub open spec fn is_literal(w: u16) -> bool {
    w < 32768
}

/// A word in operand position names one of the eight registers.
pub open spec fn is_reg_ref(w: u16) -> bool {
    32768 <= w && w < 32776
}

/// A word can be read as an operand: it is a literal or a register reference.
pub open spec fn operand_readable(w: u16) -> bool {
    is_literal(w) || is_reg_ref(w)
}

/// The register index a destination operand selects: its value reduced by
/// the architectural modulus, as the reference machine does.
pub open spec fn dest_index(w: u16) -> int {
    (w % 32768) as int
}

/// A word can be written to as a destination: its reduced value selects
/// one of the eight registers.
pub open spec fn dest_writable(w: u16) -> bool {
    w % 32768 < 8
}

/// Addition wrapped to the 15-bit word range.
pub open spec fn add_wrapped(b: u16, c: u16) -> u16 {
    ((b + c) % 32768) as u16
}

/// Multiplication wrapped to the 15-bit word range.
pub open spec fn mul_wrapped(b: u16, c: u16) -> u16 {
    ((b * c) % 32768) as u16
}

/// Remainder of `b` divided by `c`; meaningful only for `c != 0`.
pub open spec fn mod_val(b: u16, c: u16) -> u16 {
    b % c
}

/// Bitwise and.
pub open spec fn and_val(b: u16, c: u16) -> u16 {
    b & c
}

/// Bitwise or.
pub open spec fn or_val(b: u16, c: u16) -> u16 {
    b | c
}

/// The 15-bit complement: the low 15 bits of the host bitwise complement.
pub open spec fn not_val(b: u16) -> u16 {
    ((!b) % 32768) as u16
}

/// Every arithmetic opcode keeps its result inside the 15-bit word range:
/// for architectural operands, add, mult, mod, and, or and not all produce
/// architectural values.
pub proof fn lemma_arith_closure(b: u16, c: u16)
    requires
        b < 32768,
        c < 32768,
    ensures
        add_wrapped(b, c) < 32768,
        mul_wrapped(b, c) < 32768,
        c != 0 ==> mod_val(b, c) < 32768,
        and_val(b, c) < 32768,
        or_val(b, c) < 32768,
        not_val(b) < 32768,
{
    assert(b < 32768 && c < 32768 ==> b & c < 32768) by (bit_vector);
    assert(b < 32768 && c < 32768 ==> b | c < 32768) by (bit_vector);
}

/// The not opcode computes the 15-bit complement: xor-ing a word with its
/// complement sets exactly the fifteen architectural bits.
pub proof fn lemma_not_complement(b: u16)
    requires
        b < 32768,
    ensures
        not_val(b) ^ b == 32767,
        not_val(not_val(b)) == b,
{
    assert(b < 32768 ==> ((!b) % 32768) ^ b == 32767) by (bit_vector);
    assert(b < 32768 ==> (!(((!b) % 32768) as u16)) % 32768 == b) by (bit_vector);
}

} // verus!
