//! The durable forms of machine data: the little-endian word stream a
//! program image is loaded from, and the snapshot that serializes the full
//! observable state and restores it bit-identically.

use vstd::prelude::*;

verus! {

/// The low byte of a word.
pub open spec fn word_lo(w: u16) -> u8 {
    (w & 0xff) as u8
}

/// The high byte of a word.
pub open spec fn word_hi(w: u16) -> u8 {
    (w >> 8) as u8
}

/// The word two little-endian bytes denote.
pub open spec fn word_of_bytes(lo: u8, hi: u8) -> u16 {
    (lo + 256 * hi) as u16
}

/// A word split into bytes reassembles to itself.
pub proof fn lemma_word_round_trip(w: u16)
    ensures
        word_of_bytes(word_lo(w), word_hi(w)) == w,
{
    assert(((w & 0xff) as u8) + 256 * ((w >> 8) as u8) == w) by (bit_vector);
}

/// The little-endian byte stream of a word sequence.
pub open spec fn words_to_bytes(ws: Seq<u16>) -> Seq<u8> {
    Seq::new(
        2 * ws.len(),
        |i: int| if i % 2 == 0 { word_lo(ws[i / 2]) } else { word_hi(ws[i / 2]) },
    )
}

/// The word sequence a little-endian byte stream denotes: consecutive
/// byte pairs, low byte first; a trailing odd byte is ignored.
pub open spec fn le_words(bs: Seq<u8>) -> Seq<u16> {
    Seq::new(bs.len() / 2, |i: int| word_of_bytes(bs[2 * i], bs[2 * i + 1]))
}

/// A word sequence written as bytes reads back as itself.
pub proof fn lemma_words_round_trip(ws: Seq<u16>)
    ensures
        le_words(words_to_bytes(ws)) == ws,
{
    let bs = words_to_bytes(ws);
    assert forall|i: int| 0 <= i < ws.len() implies le_words(bs)[i] == ws[i] by {
        assert(bs[2 * i] == word_lo(ws[i]));
        assert(bs[2 * i + 1] == word_hi(ws[i]));
        lemma_word_round_trip(ws[i]);
    };
    assert(le_words(bs) =~= ws);
}

/// Interpret raw image bytes as a little-endian sequence of words, in
/// order, starting with the word at offset zero. An odd trailing byte is
/// ignored.
pub fn words_from_bytes(bytes: &Vec<u8>) -> (r: Vec<u16>)
    ensures
        r@ == le_words(bytes@),
{
    let blen = bytes.len();
    let n = blen / 2;
    let mut r: Vec<u16> = Vec::new();
    let mut i: usize = 0;
    while i < n
        invariant
            i <= n,
            blen == bytes@.len(),
            n == bytes@.len() / 2,
            r@.len() == i,
            forall|j: int| 0 <= j < i ==> r@[j] == word_of_bytes(
                bytes@[2 * j],
                bytes@[2 * j + 1],
            ),
        decreases n - i,
    {
        proof {
            assert(2 * (i as int) + 1 < bytes@.len());
        }
        let lo = bytes[2 * i];
        let hi = bytes[2 * i + 1];
        let w: u16 = lo as u16 + 256 * (hi as u16);
        r.push(w);
        i = i + 1;
    }
    proof {
        assert(r@ =~= le_words(bytes@));
    }
    r
}

/// The eight bytes of a 64-bit value, low byte first.
pub open spec fn u64_le(x: u64) -> Seq<u8> {
    seq![
        (x & 0xff) as u8,
        ((x >> 8) & 0xff) as u8,
        ((x >> 16) & 0xff) as u8,
        ((x >> 24) & 0xff) as u8,
        ((x >> 32) & 0xff) as u8,
        ((x >> 40) & 0xff) as u8,
        ((x >> 48) & 0xff) as u8,
        ((x >> 56) & 0xff) as u8,
    ]
}

/// The 64-bit value eight little-endian bytes denote.
pub open spec fn u64_of_le(b: Seq<u8>) -> u64 {
    (b[0] as u64) | ((b[1] as u64) << 8) | ((b[2] as u64) << 16) | ((b[3] as u64) << 24)
        | ((b[4] as u64) << 32) | ((b[5] as u64) << 40) | ((b[6] as u64) << 48)
        | ((b[7] as u64) << 56)
}

/// A 64-bit value split into bytes reassembles to itself.
pub proof fn lemma_u64_round_trip(x: u64)
    ensures
        u64_of_le(u64_le(x)) == x,
{
    assert(((x & 0xff) as u8 as u64) | ((((x >> 8) & 0xff) as u8 as u64) << 8)
        | ((((x >> 16) & 0xff) as u8 as u64) << 16) | ((((x >> 24) & 0xff) as u8 as u64) << 24)
        | ((((x >> 32) & 0xff) as u8 as u64) << 32) | ((((x >> 40) & 0xff) as u8 as u64) << 40)
        | ((((x >> 48) & 0xff) as u8 as u64) << 48) | ((((x >> 56) & 0xff) as u8 as u64) << 56)
        == x) by (bit_vector);
}

/// Append the eight little-endian bytes of a 64-bit value.
fn push_u64_le(out: &mut Vec<u8>, x: u64)
    ensures
        final(out)@ == old(out)@ + u64_le(x),
{
    out.push((x & 0xff) as u8);
    out.push(((x >> 8) & 0xff) as u8);
    out.push(((x >> 16) & 0xff) as u8);
    out.push(((x >> 24) & 0xff) as u8);
    out.push(((x >> 32) & 0xff) as u8);
    out.push(((x >> 40) & 0xff) as u8);
    out.push(((x >> 48) & 0xff) as u8);
    out.push(((x >> 56) & 0xff) as u8);
    proof {
        assert(final(out)@ =~= old(out)@ + u64_le(x));
    }
}

/// Read the 64-bit value stored at the given offset.
fn read_u64_le(b: &Vec<u8>, off: usize) -> (r: u64)
    requires
        off + 8 <= b@.len(),
    ensures
        r == u64_of_le(b@.subrange(off as int, off as int + 8)),
{
    let blen = b.len();
    let r = (b[off] as u64) | ((b[off + 1] as u64) << 8) | ((b[off + 2] as u64) << 16)
        | ((b[off + 3] as u64) << 24) | ((b[off + 4] as u64) << 32)
        | ((b[off + 5] as u64) << 40) | ((b[off + 6] as u64) << 48)
        | ((b[off + 7] as u64) << 56);
    proof {
        let s = b@.subrange(off as int, off as int + 8);
        assert(s[0] == b@[off as int]);
        assert(s[1] == b@[off as int + 1]);
        assert(s[2] == b@[off as int + 2]);
        assert(s[3] == b@[off as int + 3]);
        assert(s[4] == b@[off as int + 4]);
        assert(s[5] == b@[off as int + 5]);
        assert(s[6] == b@[off as int + 6]);
        assert(s[7] == b@[off as int + 7]);
    }
    r
}

/// Append the little-endian bytes of every word, in order.
fn push_words(out: &mut Vec<u8>, ws: &Vec<u16>)
    ensures
        final(out)@ == old(out)@ + words_to_bytes(ws@),
{
    let mut i: usize = 0;
    while i < ws.len()
        invariant
            i <= ws@.len(),
            out@.len() == old(out)@.len() + 2 * i,
            out@.subrange(0, old(out)@.len() as int) =~= old(out)@,
            forall|j: int| 0 <= j < 2 * i ==> out@[old(out)@.len() + j]
                == words_to_bytes(ws@)[j],
        decreases ws@.len() - i,
    {
        let w = ws[i];
        out.push((w & 0xff) as u8);
        out.push((w >> 8) as u8);
        i = i + 1;
    }
    proof {
        assert(final(out)@ =~= old(out)@ + words_to_bytes(ws@));
    }
}

/// Read `n` words stored little-endian at the given offset.
fn read_words(b: &Vec<u8>, off: usize, n: usize) -> (r: Vec<u16>)
    requires
        off + 2 * n <= b@.len(),
    ensures
        r@ == le_words(b@.subrange(off as int, off as int + 2 * (n as int))),
{
    let blen = b.len();
    let mut r: Vec<u16> = Vec::new();
    let mut i: usize = 0;
    while i < n
        invariant
            i <= n,
            blen == b@.len(),
            off + 2 * n <= b@.len(),
            r@.len() == i,
            forall|j: int| 0 <= j < i ==> r@[j] == word_of_bytes(
                b@[off + 2 * j],
                b@[off + 2 * j + 1],
            ),
        decreases n - i,
    {
        proof {
            assert(off + 2 * (i as int) + 1 < b@.len());
        }
        let lo = b[off + 2 * i];
        let hi = b[off + 2 * i + 1];
        let w: u16 = lo as u16 + 256 * (hi as u16);
        r.push(w);
        i = i + 1;
    }
    proof {
        assert(r@ =~= le_words(b@.subrange(off as int, off as int + 2 * (n as int))));
    }
    r
}

/// Copy `n` bytes starting at the given offset.
fn read_bytes(b: &Vec<u8>, off: usize, n: usize) -> (r: Vec<u8>)
    requires
        off + n <= b@.len(),
    ensures
        r@ == b@.subrange(off as int, off as int + n as int),
{
    let blen = b.len();
    let mut r: Vec<u8> = Vec::new();
    let mut i: usize = 0;
    while i < n
        invariant
            i <= n,
            blen == b@.len(),
            off + n <= b@.len(),
            r@.len() == i,
            forall|j: int| 0 <= j < i ==> r@[j] == b@[off + j],
        decreases n - i,
    {
        r.push(b[off + i]);
        i = i + 1;
    }
    proof {
        assert(r@ =~= b@.subrange(off as int, off as int + n as int));
    }
    r
}

/// Every word of the vector lies in the architectural range.
fn words_arch(v: &Vec<u16>) -> (r: bool)
    ensures
        r == (forall|i: int| 0 <= i < v@.len() ==> v@[i] < 32768),
{
    let mut i: usize = 0;
    while i < v.len()
        invariant
            i <= v@.len(),
            forall|j: int| 0 <= j < i ==> v@[j] < 32768,
        decreases v@.len() - i,
    {
        if v[i] >= 32768 {
            return false;
        }
        i = i + 1;
    }
    true
}

/// A by-value copy of everything a machine preserves across a save: the
/// registers, the whole memory, the stack, the program counter and the
/// pending input bytes.
pub struct Snapshot {
    /// Register contents, eight architectural values.
    pub reg: Vec<u16>,
    /// The full memory, one word per address.
    pub mem: Vec<u16>,
    /// The stack, bottom first.
    pub stack: Vec<u16>,
    /// The program counter.
    pub pc: usize,
    /// Pending input bytes, oldest first.
    pub inputs: Vec<u8>,
}

/// The mathematical content of a snapshot.
pub ghost struct SnapView {
    /// Register contents.
    pub reg: Seq<u16>,
    /// Memory contents.
    pub mem: Seq<u16>,
    /// Stack contents.
    pub stack: Seq<u16>,
    /// Program counter.
    pub pc: nat,
    /// Pending input bytes.
    pub inputs: Seq<u8>,
}

impl View for Snapshot {
    type V = SnapView;

    open spec fn view(&self) -> SnapView {
        SnapView {
            reg: self.reg@,
            mem: self.mem@,
            stack: self.stack@,
            pc: self.pc as nat,
            inputs: self.inputs@,
        }
    }
}

impl SnapView {
    /// A snapshot taken from a well-formed machine satisfies this, and
    /// restoring demands it: see [`crate::state::State::wf`]. The stack and
    /// input lengths are bounded so that the serialized header can carry
    /// them; every snapshot held in vectors satisfies the bounds.
    pub open spec fn wf(self) -> bool {
        &&& self.reg.len() == 8
        &&& forall|i: int| 0 <= i < 8 ==> self.reg[i] < 32768
        &&& self.mem.len() == 32768
        &&& self.pc <= 32768
        &&& forall|i: int| 0 <= i < self.stack.len() ==> self.stack[i] < 32768
        &&& self.stack.len() < 0x10000000000000000
        &&& self.inputs.len() < 0x10000000000000000
    }
}

impl Snapshot {
    /// Well-formedness of the carried state.
    pub open spec fn wf(&self) -> bool {
        self@.wf()
    }
}

/// The snapshot a machine state yields: everything but the run flag and
/// the already-emitted output.
pub open spec fn snap_of(m: crate::state::State) -> SnapView {
    SnapView { reg: m.reg, mem: m.mem, stack: m.stack, pc: m.pc, inputs: m.inputs }
}

/// The short canned input a restored machine starts with: a blank line
/// followed by a harmless inspection command, so the surroundings are
/// described again after the reload.
pub open spec fn canned_inputs() -> Seq<u8> {
    seq![10u8, 108u8, 111u8, 111u8, 107u8, 10u8]
}

/// The serialized form of a snapshot: a header of four 64-bit fields
/// (memory length, stack length, input length, program counter), then the
/// registers, memory and stack as little-endian words, then the raw input
/// bytes.
pub open spec fn spec_encode(v: SnapView) -> Seq<u8> {
    u64_le(v.mem.len() as u64) + u64_le(v.stack.len() as u64) + u64_le(v.inputs.len() as u64)
        + u64_le(v.pc as u64) + words_to_bytes(v.reg) + words_to_bytes(v.mem)
        + words_to_bytes(v.stack) + v.inputs
}

/// Parse a serialized snapshot. Every malformed input — a short buffer, a
/// length mismatch, a memory size other than the address space, a program
/// counter or word out of range — yields `None`.
pub open spec fn spec_decode(b: Seq<u8>) -> Option<SnapView> {
    if b.len() < 48 {
        None
    } else {
        let ml = u64_of_le(b.subrange(0, 8)) as int;
        let sl = u64_of_le(b.subrange(8, 16)) as int;
        let il = u64_of_le(b.subrange(16, 24)) as int;
        let pc = u64_of_le(b.subrange(24, 32)) as int;
        if ml != 32768 || pc > 32768 || b.len() != 48 + 2 * ml + 2 * sl + il {
            None
        } else {
            let reg = le_words(b.subrange(32, 48));
            let mem = le_words(b.subrange(48, 48 + 2 * ml));
            let stack = le_words(b.subrange(48 + 2 * ml, 48 + 2 * ml + 2 * sl));
            let inputs = b.subrange(48 + 2 * ml + 2 * sl, 48 + 2 * ml + 2 * sl + il);
            if (forall|i: int| 0 <= i < reg.len() ==> reg[i] < 32768)
                && (forall|i: int| 0 <= i < stack.len() ==> stack[i] < 32768) {
                Some(SnapView { reg, mem, stack, pc: pc as nat, inputs })
            } else {
                None
            }
        }
    }
}

/// Serialize a snapshot.
pub fn snapshot_to_bytes(s: &Snapshot) -> (r: Vec<u8>)
    ensures
        r@ == spec_encode(s@),
{
    let mut out: Vec<u8> = Vec::new();
    push_u64_le(&mut out, s.mem.len() as u64);
    push_u64_le(&mut out, s.stack.len() as u64);
    push_u64_le(&mut out, s.inputs.len() as u64);
    push_u64_le(&mut out, s.pc as u64);
    push_words(&mut out, &s.reg);
    push_words(&mut out, &s.mem);
    push_words(&mut out, &s.stack);
    let mut i: usize = 0;
    let ghost prefix: Seq<u8> = out@;
    while i < s.inputs.len()
        invariant
            i <= s.inputs@.len(),
            out@ == prefix + s.inputs@.subrange(0, i as int),
        decreases s.inputs@.len() - i,
    {
        out.push(s.inputs[i]);
        proof {
            assert(prefix + s.inputs@.subrange(0, i as int + 1)
                =~= (prefix + s.inputs@.subrange(0, i as int)).push(s.inputs@[i as int]));
        }
        i = i + 1;
    }
    proof {
        assert(s.inputs@.subrange(0, s.inputs@.len() as int) =~= s.inputs@);
        assert(out@ =~= spec_encode(s@));
    }
    out
}

/// Parse a serialized snapshot; `None` exactly on the inputs
/// [`spec_decode`] rejects.
pub fn snapshot_from_bytes(b: &Vec<u8>) -> (r: Option<Snapshot>)
    ensures
        match r {
            Some(s) => spec_decode(b@) == Some(s@) && s.wf(),
            None => spec_decode(b@) is None,
        },
{
    if b.len() < 48 {
        return None;
    }
    let ml = read_u64_le(b, 0);
    let sl = read_u64_le(b, 8);
    let il = read_u64_le(b, 16);
    let pcv = read_u64_le(b, 24);
    if ml != 32768 {
        return None;
    }
    if pcv > 32768 {
        return None;
    }
    let expected: u128 = 48 + 2 * (ml as u128) + 2 * (sl as u128) + (il as u128);
    if (b.len() as u128) != expected {
        return None;
    }
    proof {
        assert(2 * (sl as int) <= b@.len());
        assert(il as int <= b@.len());
    }
    let sl_u = sl as usize;
    let il_u = il as usize;
    let reg = read_words(b, 32, 8);
    let mem = read_words(b, 48, 32768);
    let stack = read_words(b, 48 + 2 * 32768, sl_u);
    let inputs = read_bytes(b, 48 + 2 * 32768 + 2 * sl_u, il_u);
    if !words_arch(&reg) {
        return None;
    }
    if !words_arch(&stack) {
        return None;
    }
    let pc = pcv as usize;
    let s = Snapshot { reg, mem, stack, pc, inputs };
    Some(s)
}

/// Serializing a well-formed snapshot and parsing the bytes yields the
/// identical snapshot: the same registers, memory, stack, program counter
/// and input buffer, bit for bit.
pub proof fn lemma_snapshot_round_trip(v: SnapView)
    requires
        v.wf(),
    ensures
        spec_decode(spec_encode(v)) == Some(v),
{
    let b = spec_encode(v);
    let ml = v.mem.len() as int;
    let sl = v.stack.len() as int;
    let il = v.inputs.len() as int;
    assert(b.len() == 48 + 2 * ml + 2 * sl + il);
    lemma_u64_round_trip(v.mem.len() as u64);
    lemma_u64_round_trip(v.stack.len() as u64);
    lemma_u64_round_trip(v.inputs.len() as u64);
    lemma_u64_round_trip(v.pc as u64);
    assert(b.subrange(0, 8) =~= u64_le(v.mem.len() as u64));
    assert(b.subrange(8, 16) =~= u64_le(v.stack.len() as u64));
    assert(b.subrange(16, 24) =~= u64_le(v.inputs.len() as u64));
    assert(b.subrange(24, 32) =~= u64_le(v.pc as u64));
    assert(b.subrange(32, 48) =~= words_to_bytes(v.reg));
    assert(b.subrange(48, 48 + 2 * ml) =~= words_to_bytes(v.mem));
    assert(b.subrange(48 + 2 * ml, 48 + 2 * ml + 2 * sl) =~= words_to_bytes(v.stack));
    assert(b.subrange(48 + 2 * ml + 2 * sl, 48 + 2 * ml + 2 * sl + il) =~= v.inputs);
    lemma_words_round_trip(v.reg);
    lemma_words_round_trip(v.mem);
    lemma_words_round_trip(v.stack);
}

} // verus!
