//! Counting the elements of a sequence that satisfy a predicate.

use vstd::prelude::*;

verus! {

/// The number of elements of `s` for which `p` holds.
pub open spec fn count_if<A>(s: Seq<A>, p: spec_fn(A) -> bool) -> nat
    decreases s.len(),
{
    if s.len() == 0 {
        0
    } else {
        count_if(s.drop_last(), p) + if p(s.last()) {
            1nat
        } else {
            0nat
        }
    }
}

/// The contribution of one element to a count.
pub open spec fn one_if(b: bool) -> nat {
    if b {
        1
    } else {
        0
    }
}

/// A count never exceeds the length of the sequence.
pub proof fn lemma_count_bounded<A>(s: Seq<A>, p: spec_fn(A) -> bool)
    ensures
        count_if(s, p) <= s.len(),
    decreases s.len(),
{
    if s.len() > 0 {
        lemma_count_bounded(s.drop_last(), p);
    }
}

/// Appending an element adds its contribution.
pub proof fn lemma_count_push<A>(s: Seq<A>, a: A, p: spec_fn(A) -> bool)
    ensures
        count_if(s.push(a), p) == count_if(s, p) + one_if(p(a)),
{
    assert(s.push(a).drop_last() =~= s);
}

/// Counts add up over concatenation.
pub proof fn lemma_count_concat<A>(s: Seq<A>, t: Seq<A>, p: spec_fn(A) -> bool)
    ensures
        count_if(s + t, p) == count_if(s, p) + count_if(t, p),
    decreases t.len(),
{
    if t.len() > 0 {
        assert((s + t).drop_last() =~= s + t.drop_last());
        lemma_count_concat(s, t.drop_last(), p);
    }
}

/// Removing the first element removes its contribution.
pub proof fn lemma_count_drop_first<A>(s: Seq<A>, p: spec_fn(A) -> bool)
    requires
        s.len() > 0,
    ensures
        count_if(s, p) == one_if(p(s[0])) + count_if(s.drop_first(), p),
{
    let head = seq![s[0]];
    assert(head + s.drop_first() =~= s);
    lemma_count_concat(head, s.drop_first(), p);
    lemma_count_push(Seq::<A>::empty(), s[0], p);
}

/// Replacing one element exchanges its contribution for the new one's.
pub proof fn lemma_count_update<A>(s: Seq<A>, i: int, a: A, p: spec_fn(A) -> bool)
    requires
        0 <= i < s.len(),
    ensures
        count_if(s.update(i, a), p) + one_if(p(s[i])) == count_if(s, p) + one_if(p(a)),
    decreases s.len(),
{
    if i == s.len() - 1 {
        assert(s.update(i, a).drop_last() =~= s.drop_last());
    } else {
        assert(s.update(i, a).drop_last() =~= s.drop_last().update(i, a));
        lemma_count_update(s.drop_last(), i, a, p);
    }
}

/// The count is zero exactly when no element satisfies the predicate.
pub proof fn lemma_count_zero<A>(s: Seq<A>, p: spec_fn(A) -> bool)
    ensures
        count_if(s, p) == 0 <==> forall|i: int| 0 <= i < s.len() ==> !p(#[trigger] s[i]),
    decreases s.len(),
{
    if s.len() > 0 {
        lemma_count_zero(s.drop_last(), p);
        if count_if(s, p) == 0 {
            assert forall|i: int| 0 <= i < s.len() implies !p(#[trigger] s[i]) by {
                if i < s.len() - 1 {
                    assert(s.drop_last()[i] == s[i]);
                }
            }
        }
    }
}

/// The count is the whole length exactly when every element satisfies the
/// predicate.
pub proof fn lemma_count_all<A>(s: Seq<A>, p: spec_fn(A) -> bool)
    ensures
        count_if(s, p) == s.len() <==> forall|i: int| 0 <= i < s.len() ==> p(#[trigger] s[i]),
    decreases s.len(),
{
    if s.len() > 0 {
        lemma_count_all(s.drop_last(), p);
        lemma_count_bounded(s.drop_last(), p);
        if count_if(s, p) == s.len() {
            assert forall|i: int| 0 <= i < s.len() implies p(#[trigger] s[i]) by {
                if i < s.len() - 1 {
                    assert(s.drop_last()[i] == s[i]);
                }
            }
        }
    }
}

} // verus!
