//! Counting and filtering helpers over sequences, used to state and
//! maintain the store invariants (occupancy counts, status tallies).

use vstd::prelude::*;

verus! {

/// How many elements of `s` satisfy `p`.
pub open spec fn count_where<A>(s: Seq<A>, p: spec_fn(A) -> bool) -> int
    decreases s.len(),
{
    if s.len() == 0 {
        0
    } else {
        count_where(s.drop_last(), p) + if p(s.last()) {
            1int
        } else {
            0int
        }
    }
}

pub proof fn lemma_count_where_push<A>(s: Seq<A>, p: spec_fn(A) -> bool, a: A)
    ensures
        count_where(s.push(a), p) == count_where(s, p) + if p(a) {
            1int
        } else {
            0int
        },
{
    assert(s.push(a).drop_last() =~= s);
    assert(s.push(a).last() == a);
}

/// Replacing the element at `i` adjusts the count by the difference of the
/// two elements' verdicts under `p`.
pub proof fn lemma_count_where_update<A>(s: Seq<A>, p: spec_fn(A) -> bool, i: int, a: A)
    requires
        0 <= i < s.len(),
    ensures
        count_where(s.update(i, a), p) == count_where(s, p) - (if p(s[i]) {
            1int
        } else {
            0int
        }) + (if p(a) {
            1int
        } else {
            0int
        }),
    decreases s.len(),
{
    let t = s.update(i, a);
    if i == s.len() - 1 {
        assert(t.drop_last() =~= s.drop_last());
        assert(t.last() == a);
    } else {
        assert(t.drop_last() =~= s.drop_last().update(i, a));
        assert(t.last() == s.last());
        lemma_count_where_update(s.drop_last(), p, i, a);
    }
}

/// A count over a sequence none of whose elements satisfies `p` is zero.
pub proof fn lemma_count_where_zero<A>(s: Seq<A>, p: spec_fn(A) -> bool)
    requires
        forall|i: int| 0 <= i < s.len() ==> !p(s[i]),
    ensures
        count_where(s, p) == 0,
    decreases s.len(),
{
    if s.len() > 0 {
        assert(forall|i: int|
            0 <= i < s.drop_last().len() ==> s.drop_last()[i] == s[i]);
        lemma_count_where_zero(s.drop_last(), p);
    }
}

/// One step of a filtering loop: extending the processed prefix of `s` by
/// `s[i]` extends the filtered prefix exactly when `p(s[i])` holds.
pub proof fn lemma_filter_take_step<A>(s: Seq<A>, p: spec_fn(A) -> bool, i: int)
    requires
        0 <= i < s.len(),
    ensures
        s.take(i + 1).filter(p) == if p(s[i]) {
            s.take(i).filter(p).push(s[i])
        } else {
            s.take(i).filter(p)
        },
{
    reveal(Seq::filter);
    let t = s.take(i + 1);
    assert(t.len() == i + 1);
    assert(t.drop_last() =~= s.take(i));
    assert(t.last() == s[i]);
}

/// Predicates that agree on every element of `s` filter it to the same
/// subsequence.
pub proof fn lemma_filter_congruent<A>(s: Seq<A>, p: spec_fn(A) -> bool, q: spec_fn(A) -> bool)
    requires
        forall|i: int| 0 <= i < s.len() ==> p(s[i]) == q(s[i]),
    ensures
        s.filter(p) == s.filter(q),
    decreases s.len(),
{
    reveal(Seq::filter);
    if s.len() > 0 {
        assert(forall|i: int|
            0 <= i < s.drop_last().len() ==> s.drop_last()[i] == s[i]);
        lemma_filter_congruent(s.drop_last(), p, q);
        assert(p(s.last()) == q(s.last()));
    }
}

/// An empty filter result means no element satisfied the predicate.
pub proof fn lemma_filter_empty_means_none<A>(s: Seq<A>, p: spec_fn(A) -> bool)
    requires
        s.filter(p).len() == 0,
    ensures
        forall|i: int| 0 <= i < s.len() ==> !p(s[i]),
    decreases s.len(),
{
    reveal(Seq::filter);
    if s.len() > 0 {
        assert(!p(s.last()));
        lemma_filter_empty_means_none(s.drop_last(), p);
        assert(forall|i: int|
            0 <= i < s.drop_last().len() ==> s.drop_last()[i] == s[i]);
    }
}

/// The head of a non-empty filter result is the first element of `s` that
/// satisfies the predicate.
pub proof fn lemma_filter_first<A>(s: Seq<A>, p: spec_fn(A) -> bool)
    requires
        s.filter(p).len() > 0,
    ensures
        exists|i: int|
            {
                &&& 0 <= i < s.len()
                &&& p(#[trigger] s[i])
                &&& s[i] == s.filter(p)[0]
                &&& forall|j: int| 0 <= j < i ==> !p(s[j])
            },
    decreases s.len(),
{
    reveal(Seq::filter);
    let rest = s.drop_last();
    let sub = rest.filter(p);
    assert(s.len() > 0);
    if sub.len() > 0 {
        assert(s.filter(p)[0] == sub[0]);
        lemma_filter_first(rest, p);
        let i = choose|i: int|
            {
                &&& 0 <= i < rest.len()
                &&& p(#[trigger] rest[i])
                &&& rest[i] == sub[0]
                &&& forall|j: int| 0 <= j < i ==> !p(rest[j])
            };
        assert(rest[i] == s[i]);
        assert(forall|j: int| 0 <= j < i ==> s[j] == rest[j]);
        assert(0 <= i < s.len() && p(s[i]) && s[i] == s.filter(p)[0] && forall|j: int|
            0 <= j < i ==> !p(s[j]));
    } else {
        assert(p(s.last()));
        assert(s.filter(p) == sub.push(s.last()));
        assert(s.filter(p)[0] == s.last());
        lemma_filter_empty_means_none(rest, p);
        let i = s.len() - 1;
        assert(forall|j: int| 0 <= j < i ==> s[j] == rest[j]);
        assert(0 <= i < s.len() && p(s[i]) && s[i] == s.filter(p)[0] && forall|j: int|
            0 <= j < i ==> !p(s[j]));
    }
}

/// A step counter for counting loops, phrased over the processed prefix.
pub proof fn lemma_count_where_take_step<A>(s: Seq<A>, p: spec_fn(A) -> bool, i: int)
    requires
        0 <= i < s.len(),
    ensures
        count_where(s.take(i + 1), p) == count_where(s.take(i), p) + if p(s[i]) {
            1int
        } else {
            0int
        },
{
    assert(s.take(i + 1) =~= s.take(i).push(s[i]));
    lemma_count_where_push(s.take(i), p, s[i]);
}

} // verus!
