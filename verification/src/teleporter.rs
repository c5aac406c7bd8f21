//! The register-7 verifier: an Ackermann-like recurrence over 15-bit words
//! that the hosted program uses to validate a teleporter setting. Called
//! with `r0 = 4, r1 = 1`, a candidate for register 7 is correct exactly
//! when the result is 6. A memo table makes the deep recurrence feasible.

use vstd::prelude::*;

verus! {

/// The recurrence itself: a pure function of the two counters and the
/// candidate register-7 value.
pub open spec fn tele_spec(r0: nat, r1: nat, r7: nat) -> nat
    decreases r0, r1,
{
    if r0 == 0 {
        (r1 + 1) % 32768
    } else if r1 == 0 {
        tele_spec((r0 - 1) as nat, r7, r7)
    } else {
        tele_spec((r0 - 1) as nat, tele_spec(r0, (r1 - 1) as nat, r7), r7)
    }
}

/// The recurrence stays inside the 15-bit word range.
pub proof fn lemma_tele_bound(r0: nat, r1: nat, r7: nat)
    requires
        r7 < 32768,
    ensures
        tele_spec(r0, r1, r7) < 32768,
    decreases r0, r1,
{
    if r0 == 0 {
    } else if r1 == 0 {
        lemma_tele_bound((r0 - 1) as nat, r7, r7);
    } else {
        lemma_tele_bound(r0, (r1 - 1) as nat, r7);
        lemma_tele_bound((r0 - 1) as nat, tele_spec(r0, (r1 - 1) as nat, r7), r7);
    }
}

/// A memo table for the recurrence: one slot per counter pair, holding the
/// already-computed values. Every held value is correct for the candidate
/// the table is used with.
pub struct TeleCache {
    table: Vec<Option<u16>>,
}

impl TeleCache {
    /// Every held value is the recurrence's value for its counter pair,
    /// for this candidate.
    pub closed spec fn wf(self, r7: u16) -> bool {
        &&& self.table@.len() == 163840
        &&& forall|k: int| 0 <= k < 163840 ==> (match #[trigger] self.table@[k] {
            Some(v) => v as nat == tele_spec((k / 32768) as nat, (k % 32768) as nat, r7 as nat),
            None => true,
        })
    }

    /// A fresh, empty memo table; it is valid for every candidate.
    pub fn new() -> (c: TeleCache)
        ensures
            forall|r7: u16| c.wf(r7),
    {
        let table: Vec<Option<u16>> = vec![None; 163840];
        proof {
            assert(forall|k: int| 0 <= k < 163840 ==> #[trigger] table@[k] is None);
        }
        TeleCache { table }
    }

    /// The value held for a counter pair.
    fn get(&self, i: u16, j: u16, Ghost(r7): Ghost<u16>) -> (r: Option<u16>)
        requires
            self.wf(r7),
            i < 5,
            j < 32768,
        ensures
            match r {
                Some(v) => v as nat == tele_spec(i as nat, j as nat, r7 as nat),
                None => true,
            },
    {
        let idx: usize = (i as usize) * 32768 + (j as usize);
        proof {
            assert((i as int * 32768 + j as int) / 32768 == i as int && (i as int * 32768
                + j as int) % 32768 == j as int) by (nonlinear_arith)
                requires j < 32768;
        }
        self.table[idx]
    }

    /// Record the value of a counter pair.
    fn put(&mut self, i: u16, j: u16, v: u16, Ghost(r7): Ghost<u16>)
        requires
            old(self).wf(r7),
            i < 5,
            j < 32768,
            v as nat == tele_spec(i as nat, j as nat, r7 as nat),
        ensures
            final(self).wf(r7),
    {
        let idx: usize = (i as usize) * 32768 + (j as usize);
        proof {
            assert((i as int * 32768 + j as int) / 32768 == i as int && (i as int * 32768
                + j as int) % 32768 == j as int) by (nonlinear_arith)
                requires j < 32768;
        }
        self.table[idx] = Some(v);
    }
}

/// Relies on stacker::maybe_grow: it runs the closure — on a freshly
/// allocated stack of `stack_size` bytes when the remaining stack is
/// shorter than `red_zone` — and returns the closure's own result.
#[verifier::external_body]
fn with_grown_stack<T, F: FnOnce() -> T>(red_zone: usize, stack_size: usize, f: F) -> (r: T)
    requires
        f.requires(()),
    ensures
        f.ensures((), r),
{
    stacker::maybe_grow(red_zone, stack_size, f)
}

/// The recursive evaluation of the recurrence, reusing and extending the
/// memo table.
fn tele_eval(r0: u16, r1: u16, r7: u16, cache: &mut TeleCache) -> (out: u16)
    requires
        r0 < 5,
        r1 < 32768,
        r7 < 32768,
        old(cache).wf(r7),
    ensures
        final(cache).wf(r7),
        out as nat == tele_spec(r0 as nat, r1 as nat, r7 as nat),
        out < 32768,
    decreases r0, r1,
{
    proof {
        lemma_tele_bound(r0 as nat, r1 as nat, r7 as nat);
    }
    let cached = cache.get(r0, r1, Ghost(r7));
    if let Some(out) = cached {
        return out;
    }
    if r0 == 0 {
        let out = (r1 + 1) % crate::WORDSIZE;
        cache.put(r0, r1, out, Ghost(r7));
        out
    } else if r1 == 0 {
        let out = tele_eval(r0 - 1, r7, r7, cache);
        cache.put(r0, r1, out, Ghost(r7));
        out
    } else {
        let inner = tele_eval(r0, r1 - 1, r7, cache);
        let out = tele_eval(r0 - 1, inner, r7, cache);
        cache.put(r0, r1, out, Ghost(r7));
        out
    }
}

/// Evaluate the recurrence for the counters `r0, r1` and the candidate
/// `r7`, reusing and extending the memo table. The result is exactly
/// `tele_spec(r0, r1, r7)`; a candidate is correct when, from `r0 = 4,
/// r1 = 1`, the result is 6. The recursion can run tens of thousands of
/// frames deep, so it is evaluated on a grown stack.
pub fn teleport_check(r0: u16, r1: u16, r7: u16, cache: &mut TeleCache) -> (out: u16)
    requires
        r0 < 5,
        r1 < 32768,
        r7 < 32768,
        old(cache).wf(r7),
    ensures
        final(cache).wf(r7),
        out as nat == tele_spec(r0 as nat, r1 as nat, r7 as nat),
        out < 32768,
{
    let mut owned = TeleCache { table: Vec::new() };
    std::mem::swap(&mut owned, cache);
    let run = (move || -> (r: (u16, TeleCache))
        ensures
            r.1.wf(r7),
            r.0 as nat == tele_spec(r0 as nat, r1 as nat, r7 as nat),
            r.0 < 32768,
        {
            let mut table = owned;
            let out = tele_eval(r0, r1, r7, &mut table);
            (out, table)
        });
    let (out, table) = with_grown_stack(67108864, 268435456, run);
    *cache = table;
    out
}

} // verus!
