use vstd::prelude::*;

verus! {

/// Delayed FP8 scaling: the largest magnitudes of the last `history_length` steps, kept
/// in a ring buffer. Each magnitude is held as the bit pattern of its single-precision
/// number; the scale is computed from them by the caller.
#[derive(Debug, Clone, PartialEq, Eq)]
pub struct DelayedScaling {
    pub amax_history: Vec<u32>,
    pub history_length: usize,
    cursor: usize,
}

/// The history after recording `amaxes` in turn into a fresh history of `len` zeros: slot
/// `k % len` receives the `k`-th magnitude.
pub open spec fn spec_history_after(len: nat, amaxes: Seq<u32>) -> Seq<u32>
    decreases amaxes.len(),
{
    if amaxes.len() == 0 {
        Seq::new(len, |i: int| 0u32)
    } else {
        spec_history_after(len, amaxes.drop_last()).update(
            (amaxes.len() - 1) % (len as int),
            amaxes.last(),
        )
    }
}

/// The index of the last of `n` recordings that went to slot `i` of a ring of `len` slots.
pub open spec fn spec_latest_in_slot(len: nat, n: nat, i: nat) -> int {
    i + len * ((n - 1 - i) / (len as int))
}

impl DelayedScaling {
    /// The history has `history_length` slots and the cursor points at one of them.
    pub closed spec fn wf(&self) -> bool {
        &&& self.amax_history@.len() == self.history_length
        &&& (self.cursor < self.history_length || self.cursor == 0)
    }

    /// The recorded magnitudes, slot by slot.
    pub closed spec fn spec_history(&self) -> Seq<u32> {
        self.amax_history@
    }

    /// The number of slots.
    pub closed spec fn spec_length(&self) -> nat {
        self.history_length as nat
    }

    /// The slot the next magnitude goes to.
    pub closed spec fn spec_cursor(&self) -> nat {
        self.cursor as nat
    }

    /// Whether the history has `history_length` slots and the cursor points at one of them.
    pub fn is_wf(&self) -> (r: bool)
        ensures
            r == self.wf(),
    {
        self.amax_history.len() == self.history_length && (self.cursor < self.history_length
            || self.cursor == 0)
    }

    /// A history of `history_length` zeros, with the cursor at its first slot.
    pub fn new(history_length: usize) -> (r: Self)
        ensures
            r.wf(),
            r.spec_length() == history_length,
            r.spec_history() == spec_history_after(history_length as nat, Seq::empty()),
            r.spec_cursor() == 0,
    {
        let mut amax_history: Vec<u32> = Vec::new();
        let mut i: usize = 0;
        while i < history_length
            invariant
                i <= history_length,
                amax_history@ == Seq::new(i as nat, |k: int| 0u32),
            decreases history_length - i,
        {
            amax_history.push(0);
            i = i + 1;
            assert(amax_history@ =~= Seq::new(i as nat, |k: int| 0u32));
        }
        assert(amax_history@ =~= spec_history_after(history_length as nat, Seq::empty()));
        Self { amax_history, history_length, cursor: 0 }
    }

    /// Records a step's largest magnitude in the slot under the cursor and moves the cursor
    /// on, wrapping at the end.
    pub fn update(&mut self, amax_bits: u32)
        requires
            old(self).wf(),
            old(self).spec_length() > 0,
        ensures
            final(self).wf(),
            final(self).spec_length() == old(self).spec_length(),
            final(self).spec_history() == old(self).spec_history().update(old(self).spec_cursor() as int, amax_bits),
            final(self).spec_cursor() == (old(self).spec_cursor() + 1) % old(self).spec_length(),
    {
        let c = self.cursor;
        self.amax_history.set(c, amax_bits);
        self.cursor = (c + 1) % self.history_length;
    }
}

/// Recording magnitudes one after another into a fresh history leaves, in each slot, the
/// last magnitude that went to it, or zero where none did; the cursor then stands at the
/// number of recordings modulo the length.
pub proof fn lemma_history_holds_latest(len: nat, amaxes: Seq<u32>, i: nat)
    requires
        len > 0,
        i < len,
    ensures
        spec_history_after(len, amaxes).len() == len,
        spec_history_after(len, amaxes)[i as int] == if i < amaxes.len() {
            amaxes[spec_latest_in_slot(len, amaxes.len(), i)]
        } else {
            0u32
        },
        i < amaxes.len() ==> 0 <= spec_latest_in_slot(len, amaxes.len(), i) < amaxes.len(),
        i < amaxes.len() ==> spec_latest_in_slot(len, amaxes.len(), i) % (len as int) == i,
        i < amaxes.len() ==> spec_latest_in_slot(len, amaxes.len(), i) + len >= amaxes.len(),
    decreases amaxes.len(),
{
    let n = amaxes.len();
    let l = len as int;
    if n == 0 {
        return;
    }
    let prev = amaxes.drop_last();
    lemma_history_holds_latest(len, prev, i);
    let slot = (n - 1) % l;
    vstd::arithmetic::div_mod::lemma_mod_pos_bound((n - 1) as int, l);
    vstd::arithmetic::div_mod::lemma_fundamental_div_mod((n - 1) as int, l);
    if i < n {
        let q = (n - 1 - i) / l;
        let rr = (n - 1 - i) % l;
        let j = spec_latest_in_slot(len, n, i);
        vstd::arithmetic::div_mod::lemma_fundamental_div_mod((n - 1 - i) as int, l);
        vstd::arithmetic::div_mod::lemma_mod_pos_bound((n - 1 - i) as int, l);
        vstd::arithmetic::div_mod::lemma_div_pos_is_pos((n - 1 - i) as int, l);
        assert(j == n - 1 - rr && j == q * l + i && l * q >= 0) by (nonlinear_arith)
            requires
                j == i + l * q,
                n - 1 - i == l * q + rr,
                q >= 0,
                l > 0,
        ;
        vstd::arithmetic::div_mod::lemma_fundamental_div_mod_converse(j, l, q, i as int);
        if rr == 0 {
            vstd::arithmetic::div_mod::lemma_fundamental_div_mod_converse((n - 1) as int, l, q, i as int);
            assert(slot == i);
        } else {
            assert(i < n - 1);
            assert(n - 2 - i == q * l + (rr - 1)) by (nonlinear_arith)
                requires
                    n - 1 - i == l * q + rr,
            ;
            vstd::arithmetic::div_mod::lemma_fundamental_div_mod_converse((n - 2 - i) as int, l, q, rr - 1);
            assert(spec_latest_in_slot(len, (n - 1) as nat, i) == j);
            if slot == i {
                let k = (n - 1) / l;
                assert(n - 1 - i == k * l) by (nonlinear_arith)
                    requires
                        n - 1 == l * k + slot,
                        slot == i,
                ;
                vstd::arithmetic::div_mod::lemma_mod_multiples_basic(k, l);
                assert(false);
            }
            assert(prev[j] == amaxes[j]);
        }
    } else {
        assert(slot != i) by {
            if slot == i {
                let k = (n - 1) / l;
                assert(k >= 1) by {
                    if k <= 0 {
                        assert(l * k <= 0) by (nonlinear_arith)
                            requires
                                k <= 0,
                                l > 0,
                        ;
                    }
                }
                assert(l * k >= l) by (nonlinear_arith)
                    requires
                        k >= 1,
                        l > 0,
                ;
            }
        }
    }
}

/// One more `update` on a history that holds the recordings `amaxes`, with its cursor at
/// their number modulo the length, holds `amaxes` followed by the new magnitude, with the
/// cursor again at their number modulo the length.
pub proof fn lemma_update_records(len: nat, amaxes: Seq<u32>, cursor: nat, amax: u32)
    requires
        len > 0,
        cursor == amaxes.len() % len,
    ensures
        spec_history_after(len, amaxes).update(cursor as int, amax) == spec_history_after(len, amaxes.push(amax)),
        (cursor + 1) % len == amaxes.push(amax).len() % len,
{
    assert(amaxes.push(amax).drop_last() =~= amaxes);
    vstd::arithmetic::div_mod::lemma_add_mod_noop(amaxes.len() as int, 1, len as int);
    vstd::arithmetic::div_mod::lemma_mod_pos_bound(amaxes.len() as int, len as int);
    lemma_history_holds_latest(len, amaxes, 0);
    if len == 1 {
        vstd::arithmetic::div_mod::lemma_mod_self_0(1);
    } else {
        vstd::arithmetic::div_mod::lemma_small_mod(1, len);
    }
}

} // verus!
