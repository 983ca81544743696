//! Rescaling a record of rates to percentages of its largest rate.

use vstd::arithmetic::div_mod::lemma_div_multiples_vanish_quotient;
use vstd::prelude::*;

verus! {

/// The largest rate in `values`, and zero where there is none.
pub open spec fn max_of(values: Seq<u64>) -> nat
    decreases values.len(),
{
    if values.len() == 0 {
        0
    } else {
        let rest = max_of(values.drop_last());
        if values.last() > rest {
            values.last() as nat
        } else {
            rest
        }
    }
}

/// `value` as a percentage of `max`, rounded down; zero where `max` is zero.
pub open spec fn percent_of(value: nat, max: nat) -> nat {
    if max == 0 {
        0
    } else {
        value * 100 / max
    }
}

/// Each rate of `values` as a percentage of the largest of them.
pub open spec fn normalized(values: Seq<u64>) -> Seq<u64> {
    Seq::new(values.len(), |i: int| percent_of(values[i] as nat, max_of(values)) as u64)
}

/// `max_of` is an upper bound of the rates, and one of them where there is
/// any.
pub proof fn lemma_max_of(values: Seq<u64>)
    ensures
        forall|i: int| 0 <= i < values.len() ==> values[i] <= max_of(values),
        values.len() > 0 ==> exists|i: int| 0 <= i < values.len() && values[i] == max_of(values),
    decreases values.len(),
{
    if values.len() > 0 {
        let front = values.drop_last();
        lemma_max_of(front);
        assert forall|i: int| 0 <= i < values.len() implies values[i] <= max_of(values) by {
            if i < front.len() {
                assert(front[i] == values[i]);
            }
        }
        if values.last() > max_of(front) || front.len() == 0 {
            assert(values[values.len() - 1] == max_of(values));
        } else {
            let i = choose|i: int| 0 <= i < front.len() && front[i] == max_of(front);
            assert(values[i] == max_of(values));
        }
    }
}

/// A percentage of the largest rate is never above one hundred.
pub proof fn lemma_percent_bound(value: nat, max: nat)
    requires
        value <= max,
    ensures
        percent_of(value, max) <= 100,
{
    if max > 0 {
        assert(value * 100 / max <= 100) by (nonlinear_arith)
            requires
                value <= max,
                max > 0,
        ;
    }
}

/// Rescales `values` for display: each rate becomes its percentage of the
/// largest rate, rounded down. Where no rate is above zero, every entry is
/// zero.
pub fn normalize(values: &[u64]) -> (scaled: Vec<u64>)
    ensures
        scaled@ == normalized(values@),
{
    let mut max: u64 = 0;
    let mut i: usize = 0;
    while i < values.len()
        invariant
            i <= values@.len(),
            max == max_of(values@.subrange(0, i as int)),
        decreases values@.len() - i,
    {
        assert(values@.subrange(0, i + 1).drop_last() =~= values@.subrange(0, i as int));
        if values[i] > max {
            max = values[i];
        }
        i += 1;
    }
    assert(values@.subrange(0, i as int) =~= values@);
    let mut scaled: Vec<u64> = Vec::new();
    let mut j: usize = 0;
    while j < values.len()
        invariant
            j <= values@.len(),
            max == max_of(values@),
            scaled@ == normalized(values@).subrange(0, j as int),
        decreases values@.len() - j,
    {
        let percent: u64 = if max == 0 {
            0
        } else {
            proof {
                lemma_max_of(values@);
                lemma_percent_bound(values@[j as int] as nat, max as nat);
            }
            ((values[j] as u128) * 100 / (max as u128)) as u64
        };
        scaled.push(percent);
        j += 1;
        assert(scaled@ =~= normalized(values@).subrange(0, j as int));
    }
    assert(scaled@ =~= normalized(values@));
    scaled
}

/// No percentage is above one hundred, and where some rate is above zero the
/// largest rate stands at exactly one hundred.
pub proof fn lemma_normalized_range(values: Seq<u64>)
    ensures
        normalized(values).len() == values.len(),
        forall|i: int| 0 <= i < values.len() ==> normalized(values)[i] <= 100,
        forall|i: int|
            0 <= i < values.len() && values[i] == max_of(values) && values[i] > 0 ==> normalized(
                values,
            )[i] == 100,
{
    lemma_max_of(values);
    assert forall|i: int| 0 <= i < values.len() implies normalized(values)[i] <= 100 by {
        lemma_percent_bound(values[i] as nat, max_of(values));
    }
    assert forall|i: int|
        0 <= i < values.len() && values[i] == max_of(values) && values[i] > 0 implies normalized(
        values,
    )[i] == 100 by {
        let max = max_of(values);
        assert(max * 100 / max == 100) by (nonlinear_arith)
            requires
                max > 0,
        ;
    }
}

/// A record without traffic is rescaled to zeros: where every rate is zero,
/// so is every percentage.
pub proof fn lemma_normalized_all_zero(values: Seq<u64>)
    requires
        forall|i: int| 0 <= i < values.len() ==> values[i] == 0,
    ensures
        normalized(values) == Seq::new(values.len(), |i: int| 0u64),
{
    lemma_max_of(values);
    assert(max_of(values) == 0);
    assert(normalized(values) =~= Seq::new(values.len(), |i: int| 0u64));
}

/// The largest rate of a record whose rates were all multiplied by `factor`
/// is the largest rate of the record, multiplied by `factor`.
pub proof fn lemma_max_of_scaled(values: Seq<u64>, scaled: Seq<u64>, factor: nat)
    requires
        scaled.len() == values.len(),
        forall|i: int| 0 <= i < values.len() ==> scaled[i] == factor * values[i],
    ensures
        max_of(scaled) == factor * max_of(values),
    decreases values.len(),
{
    if values.len() > 0 {
        let front = values.drop_last();
        let scaled_front = scaled.drop_last();
        assert forall|i: int| 0 <= i < front.len() implies scaled_front[i] == factor * front[i] by {
            assert(scaled_front[i] == scaled[i]);
            assert(front[i] == values[i]);
        }
        lemma_max_of_scaled(front, scaled_front, factor);
        let last = values.last() as nat;
        let rest = max_of(front);
        assert(scaled.last() == factor * last);
        if last > rest {
            if factor == 0 {
                assert(factor * last == 0 && factor * rest == 0) by (nonlinear_arith)
                    requires
                        factor == 0,
                ;
            } else {
                assert(factor * last > factor * rest) by (nonlinear_arith)
                    requires
                        last > rest,
                        factor > 0,
                ;
            }
        } else {
            assert(factor * last <= factor * rest) by (nonlinear_arith)
                requires
                    last <= rest,
            ;
        }
    } else {
        assert(factor * 0 == 0) by (nonlinear_arith);
    }
}

/// The percentages do not depend on the unit of the rates: where `scaled`
/// holds the rates of `values`, each multiplied by the same `factor` above
/// zero, the two records are rescaled to the same percentages.
pub proof fn lemma_normalized_scale_invariant(values: Seq<u64>, scaled: Seq<u64>, factor: nat)
    requires
        factor > 0,
        scaled.len() == values.len(),
        forall|i: int| 0 <= i < values.len() ==> scaled[i] == factor * values[i],
    ensures
        normalized(scaled) == normalized(values),
{
    lemma_max_of_scaled(values, scaled, factor);
    let max = max_of(values);
    assert forall|i: int| 0 <= i < values.len() implies normalized(scaled)[i] == normalized(
        values,
    )[i] by {
        let value = values[i] as nat;
        if max == 0 {
            assert(factor * max == 0) by (nonlinear_arith)
                requires
                    max == 0,
            ;
        } else {
            lemma_div_multiples_vanish_quotient(factor as int, (value * 100) as int, max as int);
            assert(factor * (value * 100) == (factor * value) * 100) by (nonlinear_arith);
            assert(factor * max > 0) by (nonlinear_arith)
                requires
                    factor > 0,
                    max > 0,
            ;
        }
    }
    assert(normalized(scaled) =~= normalized(values));
}

} // verus!
