//! Counting and summing over sequences.

use vstd::prelude::*;

verus! {

/// How many items of a sequence satisfy a predicate.
pub open spec fn tally<A>(s: Seq<A>, p: spec_fn(A) -> bool) -> nat
    decreases s.len(),
{
    if s.len() == 0 {
        0
    } else {
        tally(s.drop_last(), p) + if p(s.last()) {
            1nat
        } else {
            0
        }
    }
}

/// The sum of a measure over a sequence.
pub open spec fn total<A>(s: Seq<A>, f: spec_fn(A) -> nat) -> nat
    decreases s.len(),
{
    if s.len() == 0 {
        0
    } else {
        total(s.drop_last(), f) + f(s.last())
    }
}

/// Counting one item more.
pub proof fn lemma_tally_step<A>(s: Seq<A>, i: int, p: spec_fn(A) -> bool)
    requires
        0 <= i < s.len(),
    ensures
        tally(s.take(i + 1), p) == tally(s.take(i), p) + if p(s[i]) {
            1nat
        } else {
            0
        },
{
    assert(s.take(i + 1).drop_last() =~= s.take(i));
    assert(s.take(i + 1).last() == s[i]);
}

/// Summing one item more.
pub proof fn lemma_total_step<A>(s: Seq<A>, i: int, f: spec_fn(A) -> nat)
    requires
        0 <= i < s.len(),
    ensures
        total(s.take(i + 1), f) == total(s.take(i), f) + f(s[i]),
{
    assert(s.take(i + 1).drop_last() =~= s.take(i));
    assert(s.take(i + 1).last() == s[i]);
}

/// A count never exceeds the length.
pub proof fn lemma_tally_bound<A>(s: Seq<A>, p: spec_fn(A) -> bool)
    ensures
        tally(s, p) <= s.len(),
    decreases s.len(),
{
    if s.len() > 0 {
        lemma_tally_bound(s.drop_last(), p);
    }
}

/// A count over a concatenation is the sum of the counts.
pub proof fn lemma_tally_concat<A>(a: Seq<A>, b: Seq<A>, p: spec_fn(A) -> bool)
    ensures
        tally(a + b, p) == tally(a, p) + tally(b, p),
    decreases b.len(),
{
    if b.len() == 0 {
        assert(a + b =~= a);
    } else {
        lemma_tally_concat(a, b.drop_last(), p);
        assert((a + b).drop_last() =~= a + b.drop_last());
        assert((a + b).last() == b.last());
    }
}

/// A sum over a concatenation is the sum of the sums.
pub proof fn lemma_total_concat<A>(a: Seq<A>, b: Seq<A>, f: spec_fn(A) -> nat)
    ensures
        total(a + b, f) == total(a, f) + total(b, f),
    decreases b.len(),
{
    if b.len() == 0 {
        assert(a + b =~= a);
    } else {
        lemma_total_concat(a, b.drop_last(), f);
        assert((a + b).drop_last() =~= a + b.drop_last());
        assert((a + b).last() == b.last());
    }
}

/// Items that satisfy one of two exclusive predicates are counted once.
pub proof fn lemma_tally_split<A>(
    s: Seq<A>,
    whole: spec_fn(A) -> bool,
    left: spec_fn(A) -> bool,
    right: spec_fn(A) -> bool,
)
    requires
        forall|i: int|
            0 <= i < s.len() ==> whole(#[trigger] s[i]) == (left(s[i]) || right(s[i])) && !(left(s[i])
                && right(s[i])),
    ensures
        tally(s, whole) == tally(s, left) + tally(s, right),
    decreases s.len(),
{
    if s.len() > 0 {
        let t = s.drop_last();
        assert forall|i: int| 0 <= i < t.len() implies whole(#[trigger] t[i]) == (left(t[i]) || right(
            t[i],
        )) && !(left(t[i]) && right(t[i])) by {
            assert(t[i] == s[i]);
        }
        lemma_tally_split(t, whole, left, right);
        assert(s.last() == s[s.len() - 1]);
    }
}

/// A stronger predicate counts no more.
pub proof fn lemma_tally_monotone<A>(s: Seq<A>, p: spec_fn(A) -> bool, q: spec_fn(A) -> bool)
    requires
        forall|i: int| 0 <= i < s.len() ==> (p(#[trigger] s[i]) ==> q(s[i])),
    ensures
        tally(s, p) <= tally(s, q),
    decreases s.len(),
{
    if s.len() > 0 {
        let t = s.drop_last();
        assert forall|i: int| 0 <= i < t.len() implies (p(#[trigger] t[i]) ==> q(t[i])) by {
            assert(t[i] == s[i]);
        }
        lemma_tally_monotone(t, p, q);
        assert(s.last() == s[s.len() - 1]);
    }
}

/// Nothing satisfies the predicate exactly when the count is zero.
pub proof fn lemma_tally_zero<A>(s: Seq<A>, p: spec_fn(A) -> bool)
    ensures
        tally(s, p) == 0 <==> (forall|i: int| 0 <= i < s.len() ==> !p(#[trigger] s[i])),
    decreases s.len(),
{
    if s.len() > 0 {
        let t = s.drop_last();
        lemma_tally_zero(t, p);
        if tally(s, p) == 0 {
            assert forall|i: int| 0 <= i < s.len() implies !p(#[trigger] s[i]) by {
                if i < t.len() {
                    assert(t[i] == s[i]);
                }
            }
        }
        if forall|i: int| 0 <= i < s.len() ==> !p(#[trigger] s[i]) {
            assert forall|i: int| 0 <= i < t.len() implies !p(#[trigger] t[i]) by {
                assert(t[i] == s[i]);
            }
            assert(!p(s[s.len() - 1]));
        }
    }
}

/// Filtering one item more.
pub proof fn lemma_filter_step<A>(s: Seq<A>, i: int, p: spec_fn(A) -> bool)
    requires
        0 <= i < s.len(),
    ensures
        s.take(i + 1).filter(p) == if p(s[i]) {
            s.take(i).filter(p).push(s[i])
        } else {
            s.take(i).filter(p)
        },
{
    reveal(Seq::filter);
    assert(s.take(i + 1).drop_last() =~= s.take(i));
    assert(s.take(i + 1).last() == s[i]);
}

/// Everything satisfies the predicate exactly when the count is the length.
pub proof fn lemma_tally_full<A>(s: Seq<A>, p: spec_fn(A) -> bool)
    ensures
        tally(s, p) == s.len() <==> forall|i: int| 0 <= i < s.len() ==> p(#[trigger] s[i]),
    decreases s.len(),
{
    if s.len() > 0 {
        let t = s.drop_last();
        lemma_tally_full(t, p);
        lemma_tally_bound(t, p);
        assert forall|i: int| 0 <= i < t.len() implies t[i] == #[trigger] s[i] by {}
        if tally(s, p) == s.len() {
            assert forall|i: int| 0 <= i < s.len() implies p(#[trigger] s[i]) by {
                if i < t.len() {
                    assert(p(t[i]));
                }
            }
        } else if forall|i: int| 0 <= i < s.len() ==> p(#[trigger] s[i]) {
            assert forall|i: int| 0 <= i < t.len() implies p(#[trigger] t[i]) by {
                assert(p(s[i]));
            }
            assert(p(s[s.len() - 1]));
        }
    }
}

} // verus!
