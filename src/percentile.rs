use vstd::prelude::*;
use crate::order::NAN_KEY;
use crate::rank::{count_below, count_equal};

verus! {

pub open spec fn sorted(s: Seq<u64>) -> bool {
    forall|i: int, j: int| 0 <= i <= j < s.len() ==> s[i] <= s[j]
}

/// `x` is the element at position `k` of `s` once `s` is sorted ascending:
/// at most `k` elements lie below it and more than `k` lie at or below it.
pub open spec fn is_order_statistic(s: Seq<u64>, k: int, x: u64) -> bool {
    count_below(s, x) <= k < count_below(s, x) + count_equal(s, x)
}

/// Relies on `slice::sort_unstable`: sorts the keys ascending in place,
/// keeping each key as often as it occurs.
#[verifier::external_body]
fn sort_keys(v: &mut Vec<u64>)
    ensures
        sorted(final(v)@),
        final(v)@.to_multiset() == old(v)@.to_multiset(),
{
    v.sort_unstable();
}

proof fn lemma_counts_split(s: Seq<u64>, m: int, x: u64)
    requires
        0 <= m <= s.len(),
    ensures
        count_below(s, x) == count_below(s.subrange(0, m), x) + count_below(
            s.subrange(m, s.len() as int),
            x,
        ),
        count_equal(s, x) == count_equal(s.subrange(0, m), x) + count_equal(
            s.subrange(m, s.len() as int),
            x,
        ),
    decreases s.len(),
{
    if m == s.len() {
        assert(s.subrange(0, m) =~= s);
        assert(s.subrange(m, s.len() as int).len() == 0);
    } else {
        let d = s.drop_last();
        lemma_counts_split(d, m, x);
        assert(d.subrange(0, m) =~= s.subrange(0, m));
        let tail = s.subrange(m, s.len() as int);
        assert(tail.drop_last() =~= d.subrange(m, d.len() as int));
        assert(tail.last() == s.last());
    }
}

proof fn lemma_none_below(s: Seq<u64>, x: u64)
    requires
        forall|i: int| 0 <= i < s.len() ==> s[i] >= x,
    ensures
        count_below(s, x) == 0,
    decreases s.len(),
{
    if s.len() > 0 {
        lemma_none_below(s.drop_last(), x);
    }
}

proof fn lemma_all_at_or_below(s: Seq<u64>, x: u64)
    requires
        forall|i: int| 0 <= i < s.len() ==> s[i] <= x,
    ensures
        count_below(s, x) + count_equal(s, x) == s.len(),
    decreases s.len(),
{
    if s.len() > 0 {
        lemma_all_at_or_below(s.drop_last(), x);
    }
}

proof fn lemma_below_at_most_len(s: Seq<u64>, x: u64)
    ensures
        count_below(s, x) <= s.len(),
    decreases s.len(),
{
    if s.len() > 0 {
        lemma_below_at_most_len(s.drop_last(), x);
    }
}

proof fn lemma_below_grows(s: Seq<u64>, x: u64, y: u64)
    requires
        x < y,
    ensures
        count_below(s, x) + count_equal(s, x) <= count_below(s, y),
    decreases s.len(),
{
    if s.len() > 0 {
        lemma_below_grows(s.drop_last(), x, y);
    }
}

/// Order statistics grow with their position: the element at a lower
/// position of the sorted sequence is never above one at a higher position.
pub proof fn lemma_order_statistics_monotone(s: Seq<u64>, k1: int, x1: u64, k2: int, x2: u64)
    requires
        is_order_statistic(s, k1, x1),
        is_order_statistic(s, k2, x2),
        k1 <= k2,
    ensures
        x1 <= x2,
{
    if x2 < x1 {
        lemma_below_grows(s, x2, x1);
    }
}

proof fn lemma_none_equal(s: Seq<u64>, x: u64)
    requires
        forall|i: int| 0 <= i < s.len() ==> s[i] != x,
    ensures
        count_equal(s, x) == 0,
    decreases s.len(),
{
    if s.len() > 0 {
        lemma_none_equal(s.drop_last(), x);
    }
}

/// Statistics that all take one value have that value at every position:
/// when every resample gives the same mean (or spread), each percentile read
/// off them is that value.
pub proof fn lemma_constant_statistics(s: Seq<u64>, c: u64, k: int, x: u64)
    requires
        forall|i: int| 0 <= i < s.len() ==> s[i] == c,
        is_order_statistic(s, k, x),
    ensures
        x == c,
{
    if x != c {
        lemma_none_equal(s, x);
    }
}

/// In a sorted sequence the element at position `k` is its `k`-th order
/// statistic.
proof fn lemma_sorted_order_statistic(t: Seq<u64>, k: int)
    requires
        sorted(t),
        0 <= k < t.len(),
    ensures
        is_order_statistic(t, k, t[k]),
{
    let x = t[k];
    lemma_counts_split(t, k, x);
    lemma_none_below(t.subrange(k, t.len() as int), x);
    lemma_below_at_most_len(t.subrange(0, k), x);
    lemma_counts_split(t, k + 1, x);
    lemma_all_at_or_below(t.subrange(0, k + 1), x);
}

/// Sorts a copy of the keys; position `k` of the copy is the `k`-th order
/// statistic of the keys.
fn sorted_copy(keys: &[u64]) -> (t: Vec<u64>)
    ensures
        sorted(t@),
        t@.to_multiset() == keys@.to_multiset(),
        t@.len() == keys@.len(),
        forall|k: int| 0 <= k < t@.len() ==> is_order_statistic(keys@, k, #[trigger] t@[k]),
{
    let mut t: Vec<u64> = Vec::new();
    let mut i: usize = 0;
    while i < keys.len()
        invariant
            i <= keys@.len(),
            t@ =~= keys@.subrange(0, i as int),
        decreases keys@.len() - i,
    {
        t.push(keys[i]);
        i = i + 1;
    }
    assert(t@ =~= keys@);
    sort_keys(&mut t);
    proof {
        t@.to_multiset_ensures();
        keys@.to_multiset_ensures();
        assert forall|k: int| 0 <= k < t@.len() implies is_order_statistic(
            keys@,
            k,
            #[trigger] t@[k],
        ) by {
            lemma_sorted_order_statistic(t@, k);
            crate::rank::lemma_counts_multiset(t@, keys@, t@[k]);
        }
    }
    t
}

/// The median key: the element at position `len / 2` of the sorted sample
/// (the lower of the two middle elements when the length is even).
pub fn median_key(keys: &[u64]) -> (m: u64)
    requires
        keys@.len() > 0,
    ensures
        is_order_statistic(keys@, keys@.len() as int / 2, m),
{
    let t = sorted_copy(keys);
    t[keys.len() / 2]
}

/// Three percentiles of the bootstrap distribution of one statistic.
#[derive(Clone, Copy, Debug, PartialEq, Eq, Structural)]
pub struct Percentiles {
    pub lower: u64,
    pub median: u64,
    pub upper: u64,
}

/// Reads the lower, median and upper percentiles off a set of bootstrap
/// statistics: the elements at positions `lower_index`, `len / 2` and
/// `upper_index` once sorted ascending. `None` when either index lies past
/// the end.
pub fn percentiles(stats: &[u64], lower_index: usize, upper_index: usize) -> (r: Option<
    Percentiles,
>)
    ensures
        r is None <==> lower_index >= stats@.len() || upper_index >= stats@.len(),
        r matches Some(p) ==> {
            &&& is_order_statistic(stats@, lower_index as int, p.lower)
            &&& is_order_statistic(stats@, stats@.len() as int / 2, p.median)
            &&& is_order_statistic(stats@, upper_index as int, p.upper)
            &&& lower_index <= stats@.len() / 2 ==> p.lower <= p.median
            &&& stats@.len() / 2 <= upper_index ==> p.median <= p.upper
            &&& (forall|i: int| 0 <= i < stats@.len() ==> #[trigger] stats@[i] == stats@[0])
                ==> {
                &&& p.lower == stats@[0]
                &&& p.median == stats@[0]
                &&& p.upper == stats@[0]
            }
        },
{
    if lower_index >= stats.len() || upper_index >= stats.len() {
        return None;
    }
    let t = sorted_copy(stats);
    proof {
        let n = stats@.len() as int;
        if lower_index <= n / 2 {
            let lo = t@[lower_index as int];
            lemma_order_statistics_monotone(stats@, lower_index as int, lo, n / 2, t@[n / 2]);
        }
        if n / 2 <= upper_index {
            let hi = t@[upper_index as int];
            lemma_order_statistics_monotone(stats@, n / 2, t@[n / 2], upper_index as int, hi);
        }
    }
    proof {
        if forall|i: int| 0 <= i < stats@.len() ==> #[trigger] stats@[i] == stats@[0] {
            let n = stats@.len() as int;
            let c = stats@[0];
            lemma_constant_statistics(stats@, c, lower_index as int, t@[lower_index as int]);
            lemma_constant_statistics(stats@, c, n / 2, t@[n / 2]);
            lemma_constant_statistics(stats@, c, upper_index as int, t@[upper_index as int]);
        }
    }
    Some(Percentiles { lower: t[lower_index], median: t[stats.len() / 2], upper: t[upper_index] })
}

/// The bootstrap summary of one sample: percentiles of the resampled means
/// and of the resampled standard deviations.
#[derive(Clone, Copy, Debug, PartialEq, Eq, Structural)]
pub struct BootstrapResult {
    pub mean: Percentiles,
    pub spread: Percentiles,
}

/// Summarises one bootstrap run from the keys of its resampled means and
/// standard deviations, reading both at the same positions. `None` when an
/// index lies past the end of either.
pub fn bootstrap_result(means: &[u64], sds: &[u64], lower_index: usize, upper_index: usize) -> (r:
    Option<BootstrapResult>)
    ensures
        r is None <==> lower_index >= means@.len() || upper_index >= means@.len() || lower_index
            >= sds@.len() || upper_index >= sds@.len(),
        r matches Some(b) ==> {
            &&& is_order_statistic(means@, lower_index as int, b.mean.lower)
            &&& is_order_statistic(means@, means@.len() as int / 2, b.mean.median)
            &&& is_order_statistic(means@, upper_index as int, b.mean.upper)
            &&& is_order_statistic(sds@, lower_index as int, b.spread.lower)
            &&& is_order_statistic(sds@, sds@.len() as int / 2, b.spread.median)
            &&& is_order_statistic(sds@, upper_index as int, b.spread.upper)
            &&& lower_index <= means@.len() / 2 <= upper_index ==> b.mean.lower <= b.mean.median
                <= b.mean.upper
            &&& lower_index <= sds@.len() / 2 <= upper_index ==> b.spread.lower
                <= b.spread.median <= b.spread.upper
            &&& (forall|i: int| 0 <= i < means@.len() ==> #[trigger] means@[i] == means@[0])
                ==> b.mean == (Percentiles {
                lower: means@[0],
                median: means@[0],
                upper: means@[0],
            })
            &&& (forall|i: int| 0 <= i < sds@.len() ==> #[trigger] sds@[i] == sds@[0])
                ==> b.spread == (Percentiles { lower: sds@[0], median: sds@[0], upper: sds@[0] })
        },
{
    let mean = percentiles(means, lower_index, upper_index);
    let spread = percentiles(sds, lower_index, upper_index);
    match (mean, spread) {
        (Some(mean), Some(spread)) => Some(BootstrapResult { mean, spread }),
        _ => None,
    }
}

/// The key of negative infinity.
pub const NEG_INFINITY_KEY: u64 = 0x000f_ffff_ffff_ffff;

/// The key of positive infinity.
pub const INFINITY_KEY: u64 = 0xfff0_0000_0000_0000;

/// The smallest key of `s` that is not the NaN key; the key of positive
/// infinity when there is none.
pub open spec fn least_number(s: Seq<u64>) -> u64
    decreases s.len(),
{
    if s.len() == 0 {
        INFINITY_KEY
    } else {
        let m = least_number(s.drop_last());
        if s.last() != NAN_KEY && s.last() < m {
            s.last()
        } else {
            m
        }
    }
}

/// The largest key of `s` that is not the NaN key; the key of negative
/// infinity when there is none.
pub open spec fn greatest_number(s: Seq<u64>) -> u64
    decreases s.len(),
{
    if s.len() == 0 {
        NEG_INFINITY_KEY
    } else {
        let m = greatest_number(s.drop_last());
        if s.last() != NAN_KEY && s.last() > m {
            s.last()
        } else {
            m
        }
    }
}

/// The smallest and the largest number of a sample, given by keys; NaNs are
/// passed over, and a sample without numbers gives positive infinity as its
/// smallest and negative infinity as its largest.
pub fn min_max(keys: &[u64]) -> (r: (u64, u64))
    ensures
        r.0 == least_number(keys@),
        r.1 == greatest_number(keys@),
{
    let mut lo: u64 = INFINITY_KEY;
    let mut hi: u64 = NEG_INFINITY_KEY;
    let mut i: usize = 0;
    while i < keys.len()
        invariant
            i <= keys@.len(),
            lo == least_number(keys@.subrange(0, i as int)),
            hi == greatest_number(keys@.subrange(0, i as int)),
        decreases keys@.len() - i,
    {
        assert(keys@.subrange(0, i + 1).drop_last() =~= keys@.subrange(0, i as int));
        let k = keys[i];
        if k != NAN_KEY && k < lo {
            lo = k;
        }
        if k != NAN_KEY && k > hi {
            hi = k;
        }
        i = i + 1;
    }
    assert(keys@.subrange(0, i as int) =~= keys@);
    (lo, hi)
}

/// The two infinity keys are the keys of the two infinities.
pub proof fn lemma_infinity_keys()
    ensures
        INFINITY_KEY == crate::order::key_of(0x7ff0_0000_0000_0000),
        NEG_INFINITY_KEY == crate::order::key_of(0xfff0_0000_0000_0000),
{
    assert(INFINITY_KEY == crate::order::key_of(0x7ff0_0000_0000_0000)) by (bit_vector);
    assert(NEG_INFINITY_KEY == crate::order::key_of(0xfff0_0000_0000_0000)) by (bit_vector);
}

} // verus!
