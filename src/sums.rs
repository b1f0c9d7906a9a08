use vstd::prelude::*;

verus! {

/// The sum of `f` over the entries of `s`.
pub open spec fn sum_by<T>(s: Seq<T>, f: spec_fn(T) -> int) -> int
    decreases s.len(),
{
    if s.len() == 0 {
        0
    } else {
        sum_by(s.drop_last(), f) + f(s.last())
    }
}

pub proof fn lemma_sum_push<T>(s: Seq<T>, f: spec_fn(T) -> int, v: T)
    ensures
        sum_by(s.push(v), f) == sum_by(s, f) + f(v),
{
    assert(s.push(v).drop_last() =~= s);
}

pub proof fn lemma_sum_update<T>(s: Seq<T>, f: spec_fn(T) -> int, i: int, v: T)
    requires
        0 <= i < s.len(),
    ensures
        sum_by(s.update(i, v), f) == sum_by(s, f) - f(s[i]) + f(v),
    decreases s.len(),
{
    let t = s.update(i, v);
    if i == s.len() - 1 {
        assert(t.drop_last() =~= s.drop_last());
    } else {
        lemma_sum_update(s.drop_last(), f, i, v);
        assert(t.drop_last() =~= s.drop_last().update(i, v));
    }
}

pub proof fn lemma_sum_zero<T>(s: Seq<T>, f: spec_fn(T) -> int)
    requires
        forall|i: int| 0 <= i < s.len() ==> #[trigger] f(s[i]) == 0,
    ensures
        sum_by(s, f) == 0,
    decreases s.len(),
{
    if s.len() > 0 {
        assert(f(s[s.len() - 1]) == 0);
        lemma_sum_zero(s.drop_last(), f);
    }
}

pub proof fn lemma_sum_nonneg<T>(s: Seq<T>, f: spec_fn(T) -> int)
    requires
        forall|i: int| 0 <= i < s.len() ==> #[trigger] f(s[i]) >= 0,
    ensures
        sum_by(s, f) >= 0,
    decreases s.len(),
{
    if s.len() > 0 {
        assert(f(s[s.len() - 1]) >= 0);
        lemma_sum_nonneg(s.drop_last(), f);
    }
}

/// With no negative term, each term is at most the sum.
pub proof fn lemma_sum_bounds_term<T>(s: Seq<T>, f: spec_fn(T) -> int, i: int)
    requires
        forall|j: int| 0 <= j < s.len() ==> #[trigger] f(s[j]) >= 0,
        0 <= i < s.len(),
    ensures
        f(s[i]) <= sum_by(s, f),
    decreases s.len(),
{
    let p = s.drop_last();
    assert forall|j: int| 0 <= j < p.len() implies #[trigger] f(p[j]) >= 0 by {
        assert(p[j] == s[j]);
    }
    if i == s.len() - 1 {
        lemma_sum_nonneg(p, f);
    } else {
        lemma_sum_bounds_term(p, f, i);
        assert(f(s[s.len() - 1]) >= 0);
    }
}

} // verus!
