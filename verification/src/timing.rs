use vstd::prelude::*;

verus! {

/// What is kept of the timed runs of one target. Durations are in
/// microseconds.
#[derive(Clone, Copy, Debug, PartialEq, Eq, Structural)]
pub struct TimingSummary {
    /// How many runs were timed.
    pub count: usize,
    /// Their mean duration, rounded down.
    pub mean: u64,
    pub min: u64,
    pub max: u64,
}

/// Sum of the durations.
pub open spec fn total_of(d: Seq<u64>) -> nat
    decreases d.len(),
{
    if d.len() == 0 {
        0
    } else {
        total_of(d.drop_last()) + d.last() as nat
    }
}

/// Whether `m` is the shortest of the durations.
pub open spec fn is_least(m: u64, d: Seq<u64>) -> bool {
    d.contains(m) && forall|i: int| 0 <= i < d.len() ==> m <= d[i]
}

/// Whether `m` is the longest of the durations.
pub open spec fn is_greatest(m: u64, d: Seq<u64>) -> bool {
    d.contains(m) && forall|i: int| 0 <= i < d.len() ==> d[i] <= m
}

/// The shortest of the durations, zero where there is none.
pub open spec fn least_of(d: Seq<u64>) -> u64
    decreases d.len(),
{
    if d.len() == 0 {
        0
    } else if d.len() == 1 || d.last() < least_of(d.drop_last()) {
        d.last()
    } else {
        least_of(d.drop_last())
    }
}

/// The longest of the durations, zero where there is none.
pub open spec fn greatest_of(d: Seq<u64>) -> u64
    decreases d.len(),
{
    if d.len() == 0 {
        0
    } else if d.len() == 1 || d.last() > greatest_of(d.drop_last()) {
        d.last()
    } else {
        greatest_of(d.drop_last())
    }
}

/// The summary of a non-empty list of durations.
pub open spec fn summary_of(d: Seq<u64>) -> TimingSummary {
    TimingSummary {
        count: d.len() as usize,
        mean: (total_of(d) / d.len()) as u64,
        min: least_of(d),
        max: greatest_of(d),
    }
}

/// `least_of` and `greatest_of` pick the shortest and the longest duration.
pub proof fn lemma_extremes(d: Seq<u64>)
    requires
        d.len() > 0,
    ensures
        is_least(least_of(d), d),
        is_greatest(greatest_of(d), d),
    decreases d.len(),
{
    let n = d.len() as int;
    if n == 1 {
        assert(d[0] == d.last());
    } else {
        let front = d.drop_last();
        lemma_extremes(front);
        let lo = least_of(front);
        let hi = greatest_of(front);
        let i = choose|i: int| 0 <= i < front.len() && front[i] == lo;
        let j = choose|j: int| 0 <= j < front.len() && front[j] == hi;
        assert(d[i] == lo && d[j] == hi);
        assert(d[n - 1] == d.last());
        assert forall|k: int| 0 <= k < n implies least_of(d) <= d[k] && d[k] <= greatest_of(d) by {
            if k < n - 1 {
                assert(front[k] == d[k]);
            }
        }
    }
}

/// The sum lies between the count times the shortest and the count times the
/// longest duration.
pub proof fn lemma_total_bounds(d: Seq<u64>)
    ensures
        d.len() * least_of(d) <= total_of(d) <= d.len() * greatest_of(d),
        total_of(d) <= d.len() * u64::MAX,
    decreases d.len(),
{
    if d.len() > 0 {
        let front = d.drop_last();
        lemma_total_bounds(front);
        let n = front.len() as int;
        let (a, b) = (least_of(front) as int, greatest_of(front) as int);
        let (lo, hi) = (least_of(d) as int, greatest_of(d) as int);
        if n > 0 {
            assert(lo <= a && b <= hi);
            assert(n * lo <= n * a) by (nonlinear_arith)
                requires
                    lo <= a,
                    n >= 0,
            ;
            assert(n * b <= n * hi) by (nonlinear_arith)
                requires
                    b <= hi,
                    n >= 0,
            ;
        }
        assert((n + 1) * lo == n * lo + lo) by (nonlinear_arith);
        assert((n + 1) * hi == n * hi + hi) by (nonlinear_arith);
        assert(lo <= d.last() <= hi);
    }
}

/// The mean of a non-empty list lies between its shortest and its longest
/// duration.
pub proof fn lemma_mean_between_extremes(d: Seq<u64>)
    requires
        d.len() > 0,
    ensures
        least_of(d) <= total_of(d) / d.len() <= greatest_of(d),
        summary_of(d).min <= summary_of(d).mean <= summary_of(d).max,
{
    lemma_total_bounds(d);
    let n = d.len() as int;
    let t = total_of(d) as int;
    let (lo, hi) = (least_of(d) as int, greatest_of(d) as int);
    assert(lo <= t / n <= hi) by (nonlinear_arith)
        requires
            n > 0,
            n * lo <= t <= n * hi,
    ;
}

/// Summarises the timed runs of one target; there is no summary of no run.
pub fn summarize(durations: &Vec<u64>) -> (summary: Option<TimingSummary>)
    ensures
        summary is None <==> durations@.len() == 0,
        summary matches Some(s) ==> {
            &&& s == summary_of(durations@)
            &&& s.count == durations@.len()
            &&& s.mean == total_of(durations@) / durations@.len()
            &&& is_least(s.min, durations@)
            &&& is_greatest(s.max, durations@)
        },
{
    let n = durations.len();
    if n == 0 {
        return None;
    }
    let mut total: u128 = durations[0] as u128;
    let mut min = durations[0];
    let mut max = durations[0];
    let mut i: usize = 1;
    proof {
        assert(durations@.take(1).drop_last() =~= Seq::<u64>::empty());
        assert(total_of(durations@.take(1).drop_last()) == 0);
        assert(durations@.take(1).last() == durations@[0]);
    }
    while i < n
        invariant
            1 <= i <= n,
            n == durations@.len(),
            total == total_of(durations@.take(i as int)),
            total <= i * u64::MAX,
            min == least_of(durations@.take(i as int)),
            max == greatest_of(durations@.take(i as int)),
        decreases n - i,
    {
        proof {
            let next = durations@.take(i + 1);
            assert(next.drop_last() =~= durations@.take(i as int));
            assert(next.last() == durations@[i as int]);
        }
        let d = durations[i];
        total = total + d as u128;
        if d < min {
            min = d;
        }
        if d > max {
            max = d;
        }
        i += 1;
    }
    proof {
        assert(durations@.take(n as int) =~= durations@);
        lemma_extremes(durations@);
        lemma_mean_between_extremes(durations@);
    }
    let mean = (total / (n as u128)) as u64;
    Some(TimingSummary { count: n, mean, min, max })
}

} // verus!
