//! A fixed-size ring of the most recent polling periods and their average.

use vstd::arithmetic::div_mod::{
    lemma_fundamental_div_mod, lemma_fundamental_div_mod_converse, lemma_mod_equivalence,
    lemma_small_mod,
};
use vstd::prelude::*;

verus! {

/// A span of time in whole nanoseconds.
pub type Nanos = u64;

/// Why a window has no average.
#[derive(Clone, Copy, Debug, PartialEq, Eq)]
pub enum WindowError {
    /// No slot of the window holds a sample.
    Unpopulated,
}

/// Number of populated slots: a slot is populated when it is not zero.
pub open spec fn populated(slots: Seq<Nanos>) -> nat
    decreases slots.len(),
{
    if slots.len() == 0 {
        0
    } else {
        populated(slots.drop_last()) + if slots.last() != 0 { 1nat } else { 0nat }
    }
}

/// Sum of all slots; unpopulated slots add nothing.
pub open spec fn total(slots: Seq<Nanos>) -> nat
    decreases slots.len(),
{
    if slots.len() == 0 {
        0
    } else {
        total(slots.drop_last()) + slots.last() as nat
    }
}

/// The average over the populated slots, if there is one.
pub open spec fn mean(slots: Seq<Nanos>) -> Option<nat> {
    if populated(slots) == 0 {
        None
    } else {
        Some(total(slots) / populated(slots))
    }
}

/// The slots of a ring after `sample` is put under `cursor`: a ring without
/// slots keeps nothing.
pub open spec fn put_slots(slots: Seq<Nanos>, cursor: nat, sample: Nanos) -> Seq<Nanos> {
    if slots.len() == 0 {
        slots
    } else {
        slots.update(cursor as int, sample)
    }
}

/// The cursor of a ring of `len` slots after a put under `cursor`: the next
/// slot, and the first after the last.
pub open spec fn next_cursor(len: nat, cursor: nat) -> nat {
    if len == 0 || cursor + 1 == len {
        0
    } else {
        cursor + 1
    }
}

/// The slots and the cursor of a ring of `len` slots after `samples` were
/// put into it, one by one, starting from unpopulated slots.
pub open spec fn after_puts(len: nat, samples: Seq<Nanos>) -> (Seq<Nanos>, nat)
    decreases samples.len(),
{
    if samples.len() == 0 {
        (Seq::new(len, |i: int| 0u64), 0)
    } else {
        let (slots, cursor) = after_puts(len, samples.drop_last());
        (put_slots(slots, cursor, samples.last()), next_cursor(len, cursor))
    }
}

/// A ring of `N` slots. Each `put` overwrites the slot under the cursor and
/// moves the cursor on, so the ring always holds the `N` latest samples.
#[derive(Debug)]
pub struct CyclicArray<const N: usize> {
    value: Vec<Nanos>,
    current_index: usize,
}

impl<const N: usize> View for CyclicArray<N> {
    type V = Seq<Nanos>;

    closed spec fn view(&self) -> Seq<Nanos> {
        self.value@
    }
}

impl<const N: usize> CyclicArray<N> {
    /// Index of the slot the next `put` writes.
    pub closed spec fn cursor(&self) -> nat {
        self.current_index as nat
    }

    #[verifier::type_invariant]
    pub closed spec fn wf(&self) -> bool {
        &&& self.value@.len() == N
        &&& if N == 0 { self.current_index == 0 } else { self.current_index < N }
    }

    /// What well-formedness means for the view and the cursor.
    pub proof fn lemma_wf(&self)
        requires
            self.wf(),
        ensures
            self@.len() == N,
            N > 0 ==> self.cursor() < N,
            N == 0 ==> self.cursor() == 0,
    {
    }

    /// A ring of `N` unpopulated slots, with the cursor on the first.
    pub fn new() -> (ring: Self)
        ensures
            ring.wf(),
            ring@ == Seq::new(N as nat, |i: int| 0u64),
            ring.cursor() == 0,
    {
        let mut value: Vec<Nanos> = Vec::new();
        let mut i: usize = 0;
        while i < N
            invariant
                i <= N,
                value@ == Seq::new(i as nat, |k: int| 0u64),
            decreases N - i,
        {
            value.push(0);
            i += 1;
        }
        CyclicArray { value, current_index: 0 }
    }

    /// Stores `value` in the slot under the cursor and moves the cursor to
    /// the next slot, back to the first after the last. A ring without slots
    /// keeps nothing.
    pub fn put(&mut self, value: Nanos)
        ensures
            final(self).wf(),
            final(self)@ == put_slots(old(self)@, old(self).cursor(), value),
            final(self).cursor() == next_cursor(N as nat, old(self).cursor()),
    {
        proof {
            use_type_invariant(&*self);
        }
        if N == 0 {
            return;
        }
        self.value[self.current_index] = value;
        if self.current_index >= N - 1 {
            self.current_index = 0;
        } else {
            self.current_index += 1;
        }
    }

    /// The sum of the populated slots divided by their number, rounded down.
    /// Fails when no slot is populated.
    pub fn average(&self) -> (avg: Result<Nanos, WindowError>)
        ensures
            match avg {
                Ok(period) => mean(self@) == Some(period as nat),
                Err(why) => why == WindowError::Unpopulated && mean(self@) is None,
            },
    {
        proof {
            use_type_invariant(self);
        }
        let mut sum: u128 = 0;
        let mut count: usize = 0;
        let mut i: usize = 0;
        while i < self.value.len()
            invariant
                i <= self.value@.len(),
                self.value@.len() == N,
                count as nat == populated(self.value@.take(i as int)),
                sum as nat == total(self.value@.take(i as int)),
                count <= i,
                sum <= count * u64::MAX,
            decreases self.value@.len() - i,
        {
            let d = self.value[i];
            proof {
                let next = self.value@.take(i + 1);
                assert(next.drop_last() == self.value@.take(i as int));
                assert(next.last() == d);
                assert(count * u64::MAX + u64::MAX == (count + 1) * u64::MAX) by (nonlinear_arith);
                assert(count * u64::MAX <= usize::MAX * u64::MAX) by (nonlinear_arith)
                    requires
                        count <= usize::MAX,
                ;
            }
            if d != 0 {
                count += 1;
                sum += d as u128;
            }
            i += 1;
        }
        proof {
            assert(self.value@.take(i as int) == self.value@);
        }
        if count == 0 {
            Err(WindowError::Unpopulated)
        } else {
            proof {
                assert(sum / (count as u128) <= u64::MAX) by (nonlinear_arith)
                    requires
                        sum <= count * u64::MAX,
                        count > 0,
                ;
            }
            Ok((sum / (count as u128)) as u64)
        }
    }
}

/// A window has no average exactly when every slot is zero.
pub proof fn lemma_no_mean_iff_all_zero(slots: Seq<Nanos>)
    ensures
        mean(slots) is None <==> forall|i: int| 0 <= i < slots.len() ==> #[trigger] slots[i] == 0,
    decreases slots.len(),
{
    if slots.len() > 0 {
        let front = slots.drop_last();
        lemma_no_mean_iff_all_zero(front);
        if mean(slots) is None {
            assert forall|i: int| 0 <= i < slots.len() implies #[trigger] slots[i] == 0 by {
                if i < front.len() {
                    assert(front[i] == slots[i]);
                }
            }
        } else if populated(front) > 0 {
            let i = choose|i: int| 0 <= i < front.len() && #[trigger] front[i] != 0;
            assert(slots[i] == front[i]);
        }
    }
}

/// A ring into which nothing was put has no average.
pub proof fn lemma_fresh_ring_has_no_mean(len: nat)
    ensures
        mean(after_puts(len, Seq::empty()).0) is None,
{
    lemma_no_mean_iff_all_zero(Seq::new(len, |i: int| 0u64));
}

/// One step further round a ring of `len` slots.
proof fn lemma_mod_step(x: nat, len: nat)
    requires
        len > 0,
    ensures
        (x + 1) % len == next_cursor(len, x % len),
{
    let q = (x / len) as int;
    let r = (x % len) as int;
    lemma_fundamental_div_mod(x as int, len as int);
    if r + 1 == len {
        assert(x + 1 == (q + 1) * len + 0) by (nonlinear_arith)
            requires
                x == len * q + r,
                r + 1 == len,
        ;
        lemma_fundamental_div_mod_converse((x + 1) as int, len as int, q + 1, 0);
    } else {
        assert(x + 1 == q * len + (r + 1)) by (nonlinear_arith)
            requires
                x == len * q + r,
        ;
        lemma_fundamental_div_mod_converse((x + 1) as int, len as int, q, r + 1);
    }
}

/// Two places less than `len` apart lie in different slots.
proof fn lemma_near_places_differ(j: int, k: int, len: int)
    requires
        0 <= j < k < j + len,
    ensures
        j % len != k % len,
{
    if j % len == k % len {
        lemma_mod_equivalence(k, j, len);
        lemma_small_mod((k - j) as nat, len as nat);
    }
}

/// A ring holds its latest samples: after any puts, the cursor stands
/// where the next sample goes, each of the last `len` samples lies in the
/// slot that its place in the sequence gives it, and the slots not yet
/// reached are unpopulated.
pub proof fn lemma_ring_keeps_latest(len: nat, samples: Seq<Nanos>)
    requires
        len > 0,
    ensures
        after_puts(len, samples).0.len() == len,
        after_puts(len, samples).1 == samples.len() % len,
        forall|j: int|
            0 <= j < samples.len() && samples.len() <= j + len ==> after_puts(len, samples).0[j
                % (len as int)] == #[trigger] samples[j],
        forall|i: int|
            samples.len() <= i < len ==> #[trigger] after_puts(len, samples).0[i] == 0,
    decreases samples.len(),
{
    let count = samples.len();
    if count == 0 {
        lemma_small_mod(0, len);
    } else {
        let front = samples.drop_last();
        lemma_ring_keeps_latest(len, front);
        let (slots, cursor) = after_puts(len, front);
        let (after, _) = after_puts(len, samples);
        lemma_mod_step((count - 1) as nat, len);
        assert(after == slots.update(cursor as int, samples.last()));
        assert forall|j: int| 0 <= j < count && count <= j + len implies after[j % (len as int)]
            == #[trigger] samples[j] by {
            lemma_fundamental_div_mod(j, len as int);
            if j < count - 1 {
                lemma_near_places_differ(j, count - 1, len as int);
                assert(front[j] == samples[j]);
            }
        }
        assert forall|i: int| count <= i < len implies #[trigger] after[i] == 0 by {
            lemma_small_mod((count - 1) as nat, len);
            assert(slots[i] == 0);
        }
    }
}

/// The samples that a ring of `len` slots still holds of `samples`: the last
/// `len` of them, or all where they are fewer.
pub open spec fn latest(len: nat, samples: Seq<Nanos>) -> Seq<Nanos> {
    if samples.len() <= len {
        samples
    } else {
        samples.skip(samples.len() - len)
    }
}

/// Overwriting a slot takes its old sample out of the count and the total
/// and brings the new one in.
proof fn lemma_tally_update(slots: Seq<Nanos>, at: int, sample: Nanos)
    requires
        0 <= at < slots.len(),
    ensures
        total(slots.update(at, sample)) + slots[at] == total(slots) + sample,
        populated(slots.update(at, sample)) + (if slots[at] != 0 {
            1nat
        } else {
            0nat
        }) == populated(slots) + (if sample != 0 {
            1nat
        } else {
            0nat
        }),
    decreases slots.len(),
{
    let after = slots.update(at, sample);
    if at == slots.len() - 1 {
        assert(after.drop_last() == slots.drop_last());
    } else {
        lemma_tally_update(slots.drop_last(), at, sample);
        assert(after.drop_last() == slots.drop_last().update(at, sample));
    }
}

/// The first sample counts like any other.
proof fn lemma_tally_first(slots: Seq<Nanos>)
    requires
        slots.len() > 0,
    ensures
        total(slots) == slots.first() + total(slots.drop_first()),
        populated(slots) == populated(slots.drop_first()) + (if slots.first() != 0 {
            1nat
        } else {
            0nat
        }),
    decreases slots.len(),
{
    if slots.len() == 1 {
        assert(slots.drop_first() == slots.drop_last());
    } else {
        lemma_tally_first(slots.drop_last());
        assert(slots.drop_last().drop_first() == slots.drop_first().drop_last());
    }
}

/// A ring counts and sums just the latest samples.
proof fn lemma_ring_tallies_latest(len: nat, samples: Seq<Nanos>)
    requires
        len > 0,
    ensures
        total(after_puts(len, samples).0) == total(latest(len, samples)),
        populated(after_puts(len, samples).0) == populated(latest(len, samples)),
    decreases samples.len(),
{
    let count = samples.len();
    if count == 0 {
        lemma_no_mean_iff_all_zero(Seq::new(len, |i: int| 0u64));
        lemma_mean_within_bound(Seq::new(len, |i: int| 0u64), 0);
    } else {
        let front = samples.drop_last();
        let (slots, cursor) = after_puts(len, front);
        lemma_ring_tallies_latest(len, front);
        lemma_ring_keeps_latest(len, front);
        lemma_tally_update(slots, cursor as int, samples.last());
        let after = after_puts(len, samples).0;
        assert(after == slots.update(cursor as int, samples.last()));
        if count <= len {
            lemma_small_mod((count - 1) as nat, len);
            assert(slots[cursor as int] == 0);
            assert(latest(len, samples).drop_last() == latest(len, front));
        } else {
            let oldest = count - 1 - len;
            let kept = latest(len, front);
            assert(kept == front.skip(oldest)) by {
                if front.len() <= len {
                    assert(front.skip(0) == front);
                }
            }
            lemma_tally_first(kept);
            assert(kept.first() == front[oldest]);
            assert(kept.drop_first() == latest(len, samples).drop_last());
            assert(latest(len, samples).last() == samples.last());
            lemma_mod_equivalence(oldest + len, oldest, len as int);
            vstd::arithmetic::div_mod::lemma_mod_self_0(len as int);
            assert((oldest + len) % (len as int) == oldest % (len as int));
            assert(slots[oldest % (len as int)] == front[oldest]);
            assert(slots[cursor as int] == front[oldest]);
        }
    }
}

/// The average that a ring gives is the average of the latest samples: of
/// the last `len` that were put, or of all where they are fewer.
pub proof fn lemma_ring_averages_latest(len: nat, samples: Seq<Nanos>)
    requires
        len > 0,
    ensures
        mean(after_puts(len, samples).0) == mean(latest(len, samples)),
{
    lemma_ring_tallies_latest(len, samples);
}

/// The total is at most the number of populated slots times the largest
/// sample, so the average is no more than any bound on the samples.
pub proof fn lemma_mean_within_bound(slots: Seq<Nanos>, bound: nat)
    requires
        forall|i: int| 0 <= i < slots.len() ==> #[trigger] slots[i] <= bound,
    ensures
        total(slots) <= populated(slots) * bound,
        mean(slots) matches Some(m) ==> m <= bound,
    decreases slots.len(),
{
    if slots.len() > 0 {
        let front = slots.drop_last();
        assert forall|i: int| 0 <= i < front.len() implies #[trigger] front[i] <= bound by {
            assert(front[i] == slots[i]);
        }
        lemma_mean_within_bound(front, bound);
        assert(slots.last() == slots[slots.len() - 1]);
        assert(populated(front) * bound + bound == (populated(front) + 1) * bound)
            by (nonlinear_arith);
    }
    if populated(slots) > 0 {
        assert(total(slots) / populated(slots) <= bound) by (nonlinear_arith)
            requires
                total(slots) <= populated(slots) * bound,
                populated(slots) > 0,
        ;
    }
}

/// Where a single slot is populated, the average is its sample.
pub proof fn lemma_mean_of_single_sample(slots: Seq<Nanos>, at: int)
    requires
        0 <= at < slots.len(),
        slots[at] != 0,
        forall|i: int| 0 <= i < slots.len() && i != at ==> #[trigger] slots[i] == 0,
    ensures
        mean(slots) == Some(slots[at] as nat),
{
    lemma_single_populated(slots, at);
}

/// Where a single slot is populated, one slot is populated.
proof fn lemma_single_populated(slots: Seq<Nanos>, at: int)
    requires
        0 <= at < slots.len(),
        slots[at] != 0,
        forall|i: int| 0 <= i < slots.len() && i != at ==> #[trigger] slots[i] == 0,
    ensures
        populated(slots) == 1,
        total(slots) == slots[at],
    decreases slots.len(),
{
    let front = slots.drop_last();
    if at == slots.len() - 1 {
        assert forall|i: int| 0 <= i < front.len() implies #[trigger] front[i] == 0 by {
            assert(front[i] == slots[i]);
        }
        lemma_no_mean_iff_all_zero(front);
        lemma_mean_within_bound(front, 0);
    } else {
        assert(front[at] == slots[at]);
        assert forall|i: int| 0 <= i < front.len() && i != at implies #[trigger] front[i]
            == 0 by {
            assert(front[i] == slots[i]);
        }
        lemma_single_populated(front, at);
        assert(slots.last() == slots[slots.len() - 1]);
    }
}

} // verus!
