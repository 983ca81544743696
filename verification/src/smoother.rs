//! Smoothing of raw rates by the mean over a short window.

use crate::history::{push_bounded, History};
use vstd::prelude::*;

verus! {

/// The sum of the rates in `rates`.
pub open spec fn total(rates: Seq<u64>) -> nat
    decreases rates.len(),
{
    if rates.len() == 0 {
        0
    } else {
        total(rates.drop_last()) + rates.last() as nat
    }
}

/// The arithmetic mean of `rates`, rounded down to a whole number.
pub open spec fn mean_spec(rates: Seq<u64>) -> nat
    recommends
        rates.len() > 0,
{
    total(rates) / rates.len()
}

/// The sum of rates that all lie between `low` and `high` lies between as
/// many times `low` and as many times `high`.
pub proof fn lemma_total_bounds(rates: Seq<u64>, low: nat, high: nat)
    requires
        forall|i: int| #![trigger rates[i]] 0 <= i < rates.len() ==> low <= rates[i] <= high,
    ensures
        rates.len() * low <= total(rates) <= rates.len() * high,
    decreases rates.len(),
{
    if rates.len() > 0 {
        let front = rates.drop_last();
        assert forall|i: int| #![trigger front[i]] 0 <= i < front.len() implies low <= front[i]
            <= high by {
            assert(front[i] == rates[i]);
        }
        lemma_total_bounds(front, low, high);
        assert((rates.len() - 1) * low + low == rates.len() * low) by (nonlinear_arith);
        assert((rates.len() - 1) * high + high == rates.len() * high) by (nonlinear_arith);
    } else {
        assert(0 * low == 0 && 0 * high == 0) by (nonlinear_arith);
    }
}

/// The mean of rates that all lie between `low` and `high` lies there too:
/// smoothing invents no rate below the smallest or above the largest in the
/// window, and the mean of equal rates is that rate.
pub proof fn lemma_mean_bounds(rates: Seq<u64>, low: nat, high: nat)
    requires
        rates.len() > 0,
        forall|i: int| #![trigger rates[i]] 0 <= i < rates.len() ==> low <= rates[i] <= high,
    ensures
        low <= mean_spec(rates) <= high,
{
    lemma_total_bounds(rates, low, high);
    let count = rates.len();
    let sum = total(rates);
    assert(low <= sum / count <= high) by (nonlinear_arith)
        requires
            count > 0,
            count * low <= sum <= count * high,
    ;
}

/// The mean is the sum shared out evenly and rounded down: as many times the
/// mean as there are rates is no more than their sum, and falls short of it
/// by less than the number of rates.
pub proof fn lemma_mean_floor(rates: Seq<u64>)
    requires
        rates.len() > 0,
    ensures
        mean_spec(rates) * rates.len() <= total(rates) < (mean_spec(rates) + 1) * rates.len(),
{
    let count = rates.len();
    let sum = total(rates);
    assert((sum / count) * count <= sum < (sum / count + 1) * count) by (nonlinear_arith)
        requires
            count > 0,
    ;
}

/// The last few raw rates, and their mean as the rate to display.
pub struct Smoother {
    window: History,
}

impl View for Smoother {
    type V = Seq<u64>;

    /// The raw rates in the window, oldest first.
    closed spec fn view(&self) -> Seq<u64> {
        self.window@
    }
}

impl Smoother {
    /// The largest number of raw rates that the window holds.
    pub closed spec fn spec_capacity(&self) -> nat {
        self.window.spec_capacity()
    }

    /// The window has room for at least one rate and holds no more than its
    /// capacity.
    pub open spec fn wf(&self) -> bool {
        &&& self.spec_capacity() >= 1
        &&& self@.len() <= self.spec_capacity()
    }

    /// A smoother with an empty window for `capacity` raw rates.
    pub fn new(capacity: usize) -> (smoother: Smoother)
        requires
            capacity >= 1,
        ensures
            smoother.wf(),
            smoother@ == Seq::<u64>::empty(),
            smoother.spec_capacity() == capacity,
    {
        Smoother { window: History::new(capacity) }
    }

    /// Appends `raw` to the window, which gives up its oldest rate when it is
    /// full, and returns the mean of the rates that the window then holds.
    pub fn push(&mut self, raw: u64) -> (mean: u64)
        requires
            old(self).wf(),
        ensures
            final(self).wf(),
            final(self).spec_capacity() == old(self).spec_capacity(),
            final(self)@ == push_bounded(old(self)@, old(self).spec_capacity(), raw),
            final(self)@.len() >= 1,
            mean == mean_spec(final(self)@),
    {
        self.window.push(raw);
        let count: usize = self.window.len();
        let mut sum: u128 = 0;
        let mut i: usize = 0;
        while i < count
            invariant
                i <= count,
                count == self.window@.len(),
                sum == total(self.window@.subrange(0, i as int)),
            decreases count - i,
        {
            proof {
                let next = self.window@.subrange(0, i + 1);
                assert(next.drop_last() =~= self.window@.subrange(0, i as int));
                lemma_total_bounds(next, 0, u64::MAX as nat);
                assert(next.len() * u64::MAX <= usize::MAX * u64::MAX) by (nonlinear_arith)
                    requires
                        next.len() <= usize::MAX,
                ;
            }
            sum = sum + self.window.get(i) as u128;
            i += 1;
        }
        proof {
            assert(self.window@.subrange(0, count as int) =~= self.window@);
            lemma_mean_bounds(self.window@, 0, u64::MAX as nat);
        }
        (sum / (count as u128)) as u64
    }
}

} // verus!
