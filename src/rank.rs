use vstd::prelude::*;

verus! {

/// How many elements of `s` lie strictly below `x`.
pub open spec fn count_below(s: Seq<u64>, x: u64) -> nat
    decreases s.len(),
{
    if s.len() == 0 {
        0
    } else {
        count_below(s.drop_last(), x) + if s.last() < x {
            1nat
        } else {
            0nat
        }
    }
}

/// How many elements of `s` are equal to `x`.
pub open spec fn count_equal(s: Seq<u64>, x: u64) -> nat
    decreases s.len(),
{
    if s.len() == 0 {
        0
    } else {
        count_equal(s.drop_last(), x) + if s.last() == x {
            1nat
        } else {
            0nat
        }
    }
}

/// Twice the mid-rank of `x` within `s`: the elements below it, plus one,
/// plus half of the other elements tied with it, all doubled so that the
/// half ranks of ties stay whole numbers.
pub open spec fn doubled_rank(s: Seq<u64>, x: u64) -> nat {
    2 * count_below(s, x) + count_equal(s, x) + 1
}

/// The doubled mid-rank of every element of `s`, in the order of `s`.
pub open spec fn doubled_ranks(s: Seq<u64>) -> Seq<nat> {
    Seq::new(s.len(), |i: int| doubled_rank(s, s[i]))
}

proof fn lemma_counts_bounded(s: Seq<u64>, x: u64)
    ensures
        count_below(s, x) + count_equal(s, x) <= s.len(),
    decreases s.len(),
{
    if s.len() > 0 {
        lemma_counts_bounded(s.drop_last(), x);
    }
}

proof fn lemma_counts_push(s: Seq<u64>, v: u64, x: u64)
    ensures
        count_below(s.push(v), x) == count_below(s, x) + if v < x {
            1nat
        } else {
            0nat
        },
        count_equal(s.push(v), x) == count_equal(s, x) + if v == x {
            1nat
        } else {
            0nat
        },
{
    assert(s.push(v).drop_last() =~= s);
}

proof fn lemma_counts_remove(s: Seq<u64>, j: int, x: u64)
    requires
        0 <= j < s.len(),
    ensures
        count_below(s, x) == count_below(s.remove(j), x) + if s[j] < x {
            1nat
        } else {
            0nat
        },
        count_equal(s, x) == count_equal(s.remove(j), x) + if s[j] == x {
            1nat
        } else {
            0nat
        },
    decreases s.len(),
{
    if j < s.len() - 1 {
        lemma_counts_remove(s.drop_last(), j, x);
        assert(s.remove(j).drop_last() =~= s.drop_last().remove(j));
        assert(s.remove(j).last() == s.last());
    } else {
        assert(s.remove(j) =~= s.drop_last());
    }
}

/// Counts depend on the multiset of elements alone.
pub(crate) proof fn lemma_counts_multiset(s: Seq<u64>, t: Seq<u64>, x: u64)
    requires
        s.to_multiset() == t.to_multiset(),
    ensures
        count_below(s, x) == count_below(t, x),
        count_equal(s, x) == count_equal(t, x),
    decreases s.len(),
{
    broadcast use vstd::seq_lib::group_to_multiset_ensures;

    if s.len() == 0 {
        assert(t.to_multiset().len() == 0);
        assert(t.len() == 0);
    } else {
        let v = s.last();
        let rest = s.drop_last();
        assert(rest.push(v) =~= s);
        assert(s.to_multiset().count(v) > 0);
        assert(t.contains(v));
        let j = choose|j: int| 0 <= j < t.len() && t[j] == v;
        assert(rest.to_multiset() =~= s.to_multiset().remove(v));
        assert(t.remove(j).to_multiset() =~= t.to_multiset().remove(v));
        lemma_counts_multiset(rest, t.remove(j), x);
        lemma_counts_remove(t, j, x);
        lemma_counts_push(rest, v, x);
    }
}

/// Ranking ignores the order of the sample: two samples that hold the same
/// values the same number of times give every value the same mid-rank, so
/// reordering a sample reorders its ranks in the same way.
pub proof fn lemma_rank_permutation(s: Seq<u64>, t: Seq<u64>)
    requires
        s.to_multiset() == t.to_multiset(),
    ensures
        forall|x: u64| doubled_rank(s, x) == doubled_rank(t, x),
        forall|i: int, j: int|
            0 <= i < s.len() && 0 <= j < t.len() && s[i] == t[j] ==> doubled_ranks(s)[i]
                == doubled_ranks(t)[j],
{
    broadcast use vstd::seq_lib::group_to_multiset_ensures;

    assert forall|x: u64| doubled_rank(s, x) == doubled_rank(t, x) by {
        lemma_counts_multiset(s, t, x);
    }
    assert(s.len() == t.len()) by {
        s.to_multiset_ensures();
        t.to_multiset_ensures();
    }
}

/// `pi` is a permutation of `0..n`: `n` positions, each below `n`, no two
/// alike.
pub open spec fn is_permutation(pi: Seq<int>, n: int) -> bool {
    &&& pi.len() == n
    &&& forall|i: int| 0 <= i < n ==> 0 <= #[trigger] pi[i] < n
    &&& forall|i: int, j: int| 0 <= i < j < n ==> pi[i] != pi[j]
}

proof fn lemma_counts_reordered(x: Seq<u64>, y: Seq<u64>, pi: Seq<int>, v: u64)
    requires
        y.len() == x.len(),
        is_permutation(pi, x.len() as int),
        forall|i: int| 0 <= i < y.len() ==> y[i] == x[#[trigger] pi[i]],
    ensures
        count_below(y, v) == count_below(x, v),
        count_equal(y, v) == count_equal(x, v),
    decreases y.len(),
{
    if y.len() > 0 {
        let n = y.len() as int;
        let j = pi[n - 1];
        let x2 = x.remove(j);
        let y2 = y.drop_last();
        let pi2 = Seq::new(
            (n - 1) as nat,
            |i: int|
                if pi[i] > j {
                    pi[i] - 1
                } else {
                    pi[i]
                },
        );
        assert forall|i: int| 0 <= i < y2.len() implies y2[i] == x2[#[trigger] pi2[i]] by {
            assert(pi[i] != j);
        }
        assert forall|i: int| 0 <= i < n - 1 implies 0 <= #[trigger] pi2[i] < n - 1 by {
            assert(pi[i] != j);
        }
        lemma_counts_reordered(x2, y2, pi2, v);
        lemma_counts_remove(x, j, v);
        lemma_counts_push(y2, y.last(), v);
        assert(y2.push(y.last()) =~= y);
    }
}

/// Ranks move with the values: when `y` is `x` reordered by the permutation
/// `pi` (`y[i] == x[pi[i]]`), each element of `y` has the rank that its value
/// had in `x`.
pub proof fn lemma_rank_reordered(x: Seq<u64>, y: Seq<u64>, pi: Seq<int>)
    requires
        y.len() == x.len(),
        is_permutation(pi, x.len() as int),
        forall|i: int| 0 <= i < y.len() ==> y[i] == x[#[trigger] pi[i]],
    ensures
        forall|i: int|
            0 <= i < y.len() ==> doubled_ranks(y)[i] == doubled_ranks(x)[#[trigger] pi[i]],
{
    assert forall|i: int| 0 <= i < y.len() implies doubled_ranks(y)[i] == doubled_ranks(
        x,
    )[#[trigger] pi[i]] by {
        lemma_counts_reordered(x, y, pi, y[i]);
    }
}

/// Twice the mid-rank of each element among all elements of the sample:
/// `2 * (number below) + (number equal, itself included) + 1`. Halving an
/// entry gives the usual rank, with tied values sharing the mean of the
/// ranks they occupy.
pub fn rankify(keys: &[u64]) -> (ranks: Vec<u64>)
    requires
        keys@.len() <= usize::MAX / 2,
    ensures
        ranks@.len() == keys@.len(),
        forall|i: int| 0 <= i < keys@.len() ==> ranks@[i] == doubled_ranks(keys@)[i],
{
    let n = keys.len();
    let mut ranks: Vec<u64> = Vec::new();
    let mut i: usize = 0;
    while i < n
        invariant
            n == keys@.len(),
            n <= usize::MAX / 2,
            i <= n,
            ranks@.len() == i,
            forall|k: int| 0 <= k < i ==> ranks@[k] == doubled_ranks(keys@)[k],
        decreases n - i,
    {
        let x = keys[i];
        let mut below: usize = 0;
        let mut equal: usize = 0;
        let mut j: usize = 0;
        while j < n
            invariant
                n == keys@.len(),
                n <= usize::MAX / 2,
                j <= n,
                x == keys@[i as int],
                below == count_below(keys@.subrange(0, j as int), x),
                equal == count_equal(keys@.subrange(0, j as int), x),
            decreases n - j,
        {
            proof {
                let pre = keys@.subrange(0, j as int);
                assert(keys@.subrange(0, j + 1) =~= pre.push(keys@[j as int]));
                lemma_counts_push(pre, keys@[j as int], x);
                lemma_counts_bounded(keys@.subrange(0, j + 1), x);
            }
            if keys[j] < x {
                below = below + 1;
            } else if keys[j] == x {
                equal = equal + 1;
            }
            j = j + 1;
        }
        proof {
            assert(keys@.subrange(0, n as int) =~= keys@);
            lemma_counts_bounded(keys@, x);
        }
        ranks.push((2 * below + equal + 1) as u64);
        i = i + 1;
    }
    ranks
}

} // verus!
