//! Ordering tubes for display: by `total_jobs`, largest first, tubes with
//! equal totals keeping the order in which they were fetched (a stable
//! sort).
use vstd::prelude::*;
use crate::model::{TubeStats, TubeStatsView, tube_views};

verus! {

/// The number of leading elements of `s` whose total is at least `k`.
pub open spec fn leading_at_least(s: Seq<TubeStatsView>, k: u64) -> nat
    decreases s.len(),
{
    if s.len() > 0 && s[0].total_jobs >= k {
        1 + leading_at_least(s.drop_first(), k)
    } else {
        0
    }
}

/// `t` placed into `s` after every leading element whose total is at least
/// that of `t`.
pub open spec fn insert_by_total(s: Seq<TubeStatsView>, t: TubeStatsView) -> Seq<TubeStatsView> {
    s.insert(leading_at_least(s, t.total_jobs) as int, t)
}

/// `s` stably sorted by `total_jobs`, largest first.
pub open spec fn sorted_by_total(s: Seq<TubeStatsView>) -> Seq<TubeStatsView>
    decreases s.len(),
{
    if s.len() == 0 {
        s
    } else {
        insert_by_total(sorted_by_total(s.drop_last()), s.last())
    }
}

/// Totals never increase along `s`.
pub open spec fn is_descending(s: Seq<TubeStatsView>) -> bool {
    forall|i: int, j: int| 0 <= i < j < s.len() ==> s[i].total_jobs >= s[j].total_jobs
}

/// The elements of `s` whose total is `k`, in order.
pub open spec fn with_total(s: Seq<TubeStatsView>, k: u64) -> Seq<TubeStatsView> {
    s.filter(|t: TubeStatsView| t.total_jobs == k)
}

proof fn lemma_leading_at_least(s: Seq<TubeStatsView>, k: u64)
    requires
        is_descending(s),
    ensures
        leading_at_least(s, k) <= s.len(),
        forall|i: int| 0 <= i < leading_at_least(s, k) ==> s[i].total_jobs >= k,
        forall|i: int| leading_at_least(s, k) <= i < s.len() ==> s[i].total_jobs < k,
    decreases s.len(),
{
    if s.len() > 0 && s[0].total_jobs >= k {
        let t = s.drop_first();
        assert(is_descending(t)) by {
            assert forall|i: int, j: int| 0 <= i < j < t.len() implies t[i].total_jobs
                >= t[j].total_jobs by {
                assert(t[i] == s[i + 1] && t[j] == s[j + 1]);
            }
        }
        lemma_leading_at_least(t, k);
        assert forall|i: int| 0 <= i < leading_at_least(s, k) implies s[i].total_jobs >= k by {
            if i > 0 {
                assert(s[i] == t[i - 1]);
            }
        }
        assert forall|i: int| leading_at_least(s, k) <= i < s.len() implies s[i].total_jobs
            < k by {
            assert(s[i] == t[i - 1]);
        }
    } else if s.len() > 0 {
        assert forall|i: int| 0 <= i < s.len() implies s[i].total_jobs < k by {
            assert(s[0].total_jobs >= s[i].total_jobs);
        }
    }
}

proof fn lemma_with_total_none(s: Seq<TubeStatsView>, k: u64)
    requires
        forall|i: int| 0 <= i < s.len() ==> s[i].total_jobs != k,
    ensures
        with_total(s, k) == Seq::<TubeStatsView>::empty(),
    decreases s.len(),
{
    reveal(Seq::filter);
    if s.len() > 0 {
        lemma_with_total_none(s.drop_last(), k);
    }
}

proof fn lemma_insert_split(s: Seq<TubeStatsView>, p: int, t: TubeStatsView)
    requires
        0 <= p <= s.len(),
    ensures
        s.insert(p, t) == s.take(p) + seq![t] + s.skip(p),
        s == s.take(p) + s.skip(p),
{
    assert(s.insert(p, t) =~= s.take(p) + seq![t] + s.skip(p));
    assert(s =~= s.take(p) + s.skip(p));
}

/// Law: `sorted_by_total` orders tubes by `total_jobs`, largest first, and
/// for every total keeps exactly the tubes of the input with that total, in
/// their input order (so it is a stable permutation of its input).
pub proof fn sorted_by_total_is_stable_sort(s: Seq<TubeStatsView>)
    ensures
        sorted_by_total(s).len() == s.len(),
        is_descending(sorted_by_total(s)),
        forall|k: u64| #[trigger] with_total(sorted_by_total(s), k) == with_total(s, k),
    decreases s.len(),
{
    if s.len() > 0 {
        let r = sorted_by_total(s.drop_last());
        let t = s.last();
        sorted_by_total_is_stable_sort(s.drop_last());
        lemma_leading_at_least(r, t.total_jobs);
        let p = leading_at_least(r, t.total_jobs) as int;
        let out = insert_by_total(r, t);
        lemma_insert_split(r, p, t);
        assert(out.len() == s.len());
        assert forall|i: int, j: int| 0 <= i < j < out.len() implies out[i].total_jobs
            >= out[j].total_jobs by {
            if j < p {
                assert(out[i] == r[i] && out[j] == r[j]);
            } else if j == p {
                assert(out[j] == t);
                assert(out[i] == r[i]);
            } else if i < p {
                assert(out[i] == r[i] && out[j] == r[j - 1]);
            } else if i == p {
                assert(out[i] == t && out[j] == r[j - 1]);
            } else {
                assert(out[i] == r[i - 1] && out[j] == r[j - 1]);
            }
        }
        assert forall|k: u64| #[trigger] with_total(out, k) == with_total(s, k) by {
            let a = r.take(p);
            let b = r.skip(p);
            let one = seq![t];
            Seq::filter_distributes_over_add(a + one, b, |x: TubeStatsView| x.total_jobs == k);
            Seq::filter_distributes_over_add(a, one, |x: TubeStatsView| x.total_jobs == k);
            Seq::filter_distributes_over_add(a, b, |x: TubeStatsView| x.total_jobs == k);
            assert(with_total(out, k) == with_total(a, k) + with_total(one, k) + with_total(b, k));
            assert(with_total(r, k) == with_total(a, k) + with_total(b, k));
            assert(with_total(r, k) == with_total(s.drop_last(), k));
            reveal(Seq::filter);
            assert(one.drop_last() =~= Seq::<TubeStatsView>::empty());
            assert(one.last() == t);
            if k == t.total_jobs {
                assert forall|i: int| 0 <= i < b.len() implies b[i].total_jobs != k by {
                    assert(b[i] == r[p + i]);
                }
                lemma_with_total_none(b, k);
                assert(with_total(one, k) =~= seq![t]);
                assert(with_total(s, k) == with_total(s.drop_last(), k).push(t));
                assert(with_total(out, k) =~= with_total(s, k));
            } else {
                assert(with_total(Seq::<TubeStatsView>::empty(), k) =~= Seq::<TubeStatsView>::empty());
                assert(with_total(one, k) =~= Seq::<TubeStatsView>::empty());
                assert(with_total(s, k) == with_total(s.drop_last(), k));
                assert(with_total(out, k) =~= with_total(s, k));
            }
        }
    }
}

/// The tubes stably sorted by `total_jobs`, largest first.
pub fn sort_by_total_jobs(tubes: Vec<TubeStats>) -> (r: Vec<TubeStats>)
    ensures
        tube_views(r@) == sorted_by_total(tube_views(tubes@)),
{
    let ghost input = tube_views(tubes@);
    let mut rest = tubes;
    let mut out: Vec<TubeStats> = Vec::new();
    let ghost mut taken: int = 0;
    assert(input.take(0) =~= Seq::<TubeStatsView>::empty());
    while rest.len() > 0
        invariant
            0 <= taken <= input.len(),
            tube_views(rest@) == input.skip(taken),
            tube_views(out@) == sorted_by_total(input.take(taken)),
        decreases rest@.len(),
    {
        let ghost before = tube_views(out@);
        let ghost old_rest = rest@;
        assert(tube_views(old_rest)[0] == old_rest[0]@);
        assert(tube_views(old_rest).len() == old_rest.len());
        assert(taken < input.len());
        assert(input.skip(taken)[0] == input[taken]);
        let t = rest.remove(0);
        assert(t@ == input[taken]);
        assert forall|i: int| 0 <= i < rest@.len() implies #[trigger] tube_views(rest@)[i]
            == input.skip(taken + 1)[i] by {
            assert(rest@[i] == old_rest[i + 1]);
            assert(tube_views(old_rest)[i + 1] == old_rest[i + 1]@);
            assert(input.skip(taken)[i + 1] == input[taken + 1 + i]);
        }
        assert(tube_views(rest@) =~= input.skip(taken + 1));
        assert(input.take(taken + 1).drop_last() =~= input.take(taken));
        assert(input.take(taken + 1).last() == t@);
        let mut p: usize = 0;
        assert(before.skip(0) =~= before);
        while p < out.len() && out[p].total_jobs >= t.total_jobs
            invariant
                p <= out@.len(),
                before == tube_views(out@),
                leading_at_least(before, t@.total_jobs) == p + leading_at_least(
                    before.skip(p as int),
                    t@.total_jobs,
                ),
            decreases out@.len() - p,
        {
            assert(before.skip(p as int).drop_first() =~= before.skip(p + 1));
            assert(before.skip(p as int)[0] == out@[p as int]@);
            p = p + 1;
        }
        proof {
            if p < out@.len() {
                assert(before.skip(p as int)[0] == out@[p as int]@);
            }
        }
        out.insert(p, t);
        assert(tube_views(out@) =~= before.insert(p as int, t@));
        proof {
            taken = taken + 1;
        }
    }
    assert(input.take(taken) =~= input);
    out
}

} // verus!
