//! Rolling window of frame durations for a smoothed frame rate.
//!
//! The window is a fixed-capacity circular buffer of per-frame durations in
//! nanoseconds. It always holds exactly its capacity of entries: it starts
//! seeded with one-second durations, and each recorded frame overwrites the
//! oldest entry. The smoothed rate is the reciprocal of the mean duration.

use vstd::prelude::*;
use vstd::arithmetic::div_mod::{lemma_div_is_ordered, lemma_div_multiples_vanish};

verus! {

/// The duration every slot starts from, one second, so that the reported
/// rate climbs gently while the first real frames arrive.
pub const SEED_FRAME_NANOS: u64 = 1_000_000_000;

/// Sum of a sequence of durations, in nanoseconds.
pub open spec fn sum_nanos(s: Seq<u64>) -> int
    decreases s.len(),
{
    if s.len() == 0 {
        0
    } else {
        sum_nanos(s.drop_last()) + s.last()
    }
}

/// A sum of durations is at most the length times the largest duration.
pub proof fn lemma_sum_nanos_bounds(s: Seq<u64>)
    ensures
        0 <= sum_nanos(s) <= s.len() * (u64::MAX as int),
    decreases s.len(),
{
    if s.len() > 0 {
        lemma_sum_nanos_bounds(s.drop_last());
        assert((s.len() - 1) * (u64::MAX as int) + (u64::MAX as int) == s.len() * (
        u64::MAX as int)) by (nonlinear_arith);
    }
}

/// A sequence of one repeated duration sums to the length times that
/// duration.
pub proof fn lemma_sum_nanos_uniform(s: Seq<u64>, d: u64)
    requires
        forall|i: int| 0 <= i < s.len() ==> s[i] == d,
    ensures
        sum_nanos(s) == s.len() * d,
    decreases s.len(),
{
    if s.len() == 0 {
    } else {
        lemma_sum_nanos_uniform(s.drop_last(), d);
        assert((s.len() - 1) * d + d == s.len() * d) by (nonlinear_arith);
    }
}

/// The fixed-capacity circular buffer of per-frame durations.
pub struct FpsWindow {
    /// The durations, in nanoseconds; the window always holds exactly its
    /// capacity of them.
    pub durations: Vec<u64>,
    /// The slot the next recorded duration overwrites, the oldest entry.
    pub next: usize,
}

impl FpsWindow {
    /// A window is well formed when it holds at least one slot and the
    /// overwrite position points at one of them.
    pub open spec fn wf(self) -> bool {
        1 <= self.durations@.len() && (self.next as int) < self.durations@.len()
    }

    /// The stored durations.
    pub open spec fn entries(self) -> Seq<u64> {
        self.durations@
    }

    /// The mean stored duration, in nanoseconds, rounded down.
    pub open spec fn average_spec(self) -> int {
        sum_nanos(self.durations@) / (self.durations@.len() as int)
    }

    /// Builds a window of `capacity` slots, each seeded with one second.
    pub fn new(capacity: usize) -> (w: FpsWindow)
        requires
            1 <= capacity,
        ensures
            w.wf(),
            w.next == 0,
            w.entries().len() == capacity,
            forall|i: int| 0 <= i < capacity ==> w.entries()[i] == SEED_FRAME_NANOS,
    {
        let mut durations: Vec<u64> = Vec::new();
        let mut i: usize = 0;
        while i < capacity
            invariant
                i <= capacity,
                durations@.len() == i,
                forall|j: int| 0 <= j < i ==> durations@[j] == SEED_FRAME_NANOS,
            decreases capacity - i,
        {
            durations.push(SEED_FRAME_NANOS);
            i = i + 1;
        }
        FpsWindow { durations, next: 0 }
    }

    /// Records the duration of one frame, overwriting the oldest entry and
    /// advancing the overwrite position circularly.
    pub fn record(&mut self, d: u64)
        requires
            old(self).wf(),
        ensures
            final(self).wf(),
            final(self).entries() == old(self).entries().update(old(self).next as int, d),
            final(self).next as int == (old(self).next + 1) % (old(self).entries().len() as int),
    {
        let n: usize = self.durations.len();
        let slot = self.next;
        self.durations[slot] = d;
        self.next = (slot + 1) % n;
    }

    /// The mean stored duration, in nanoseconds.
    pub fn average_nanos(&self) -> (avg: u64)
        requires
            self.wf(),
        ensures
            avg as int == self.average_spec(),
    {
        proof {
            lemma_sum_nanos_bounds(self.durations@);
        }
        let n: usize = self.durations.len();
        let mut sum: u128 = 0;
        let mut i: usize = 0;
        while i < n
            invariant
                self.wf(),
                n == self.durations@.len(),
                i <= n,
                sum as int == sum_nanos(self.durations@.subrange(0, i as int)),
                sum as int <= (i as int) * (u64::MAX as int),
            decreases n - i,
        {
            proof {
                lemma_sum_nanos_bounds(self.durations@.subrange(0, i as int));
                assert(self.durations@.subrange(0, i as int + 1).drop_last() =~= self.durations@
                    .subrange(0, i as int));
                assert((i as int) * (u64::MAX as int) + (u64::MAX as int) == (i as int + 1) * (
                u64::MAX as int)) by (nonlinear_arith);
                assert((i as int + 1) * (u64::MAX as int) <= (n as int) * (u64::MAX as int))
                    by (nonlinear_arith)
                    requires
                        i < n,
                ;
            }
            sum = sum + (self.durations[i] as u128);
            i = i + 1;
        }
        proof {
            assert(self.durations@.subrange(0, n as int) =~= self.durations@);
            lemma_div_is_ordered(sum as int, (n as int) * (u64::MAX as int), n as int);
            lemma_div_multiples_vanish(u64::MAX as int, n as int);
            assert((n as int) * (u64::MAX as int) == (u64::MAX as int) * (n as int))
                by (nonlinear_arith);
        }
        (sum / (n as u128)) as u64
    }
}

/// Feeding one identical duration into every slot of a window makes the
/// average exactly that duration, so the smoothed rate is exactly its
/// reciprocal.
pub proof fn lemma_uniform_window_average(w: FpsWindow, d: u64)
    requires
        w.wf(),
        forall|i: int| 0 <= i < w.entries().len() ==> w.entries()[i] == d,
    ensures
        w.average_spec() == d,
{
    lemma_sum_nanos_uniform(w.entries(), d);
    lemma_div_multiples_vanish(d as int, w.entries().len() as int);
    assert(w.entries().len() * (d as int) == (w.entries().len() as int) * (d as int));
    assert((w.entries().len() as int) * (d as int) == (d as int) * (w.entries().len() as int))
        by (nonlinear_arith);
}

} // verus!
