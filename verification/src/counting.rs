use vstd::prelude::*;

verus! {

/// The number of elements of `s` that satisfy `p`.
pub open spec fn count_where<T>(s: Seq<T>, p: spec_fn(T) -> bool) -> nat
    decreases s.len(),
{
    if s.len() == 0 {
        0
    } else {
        count_where(s.drop_last(), p) + if p(s.last()) {
            1nat
        } else {
            0nat
        }
    }
}

/// Extending a prefix by one element adds one to the count exactly when
/// that element satisfies the predicate.
pub proof fn lemma_count_where_step<T>(s: Seq<T>, p: spec_fn(T) -> bool, i: int)
    requires
        0 <= i < s.len(),
    ensures
        count_where(s.take(i + 1), p) == count_where(s.take(i), p) + if p(s[i]) {
            1nat
        } else {
            0nat
        },
{
    assert(s.take(i + 1).drop_last() =~= s.take(i));
}

/// A count never exceeds the length, and a prefix never counts more than
/// the whole sequence.
pub proof fn lemma_count_where_bounds<T>(s: Seq<T>, p: spec_fn(T) -> bool, i: int)
    requires
        0 <= i <= s.len(),
    ensures
        count_where(s, p) <= s.len(),
        count_where(s.take(i), p) <= count_where(s, p),
    decreases s.len(),
{
    if s.len() > 0 {
        if i == s.len() {
            assert(s.take(i) =~= s);
            lemma_count_where_bounds(s.drop_last(), p, i - 1);
        } else {
            assert(s.drop_last().take(i) =~= s.take(i));
            lemma_count_where_bounds(s.drop_last(), p, i);
        }
    } else {
        assert(s.take(i) =~= s);
    }
}

/// Elements that satisfy `p` and elements that do not together make up the
/// whole sequence.
pub proof fn lemma_count_where_complement<T>(s: Seq<T>, p: spec_fn(T) -> bool, q: spec_fn(T) -> bool)
    requires
        forall|x: T| #[trigger] q(x) == !p(x),
    ensures
        count_where(s, p) + count_where(s, q) == s.len(),
    decreases s.len(),
{
    if s.len() > 0 {
        lemma_count_where_complement(s.drop_last(), p, q);
    }
}

/// Two sequences of the same length whose elements agree, position by
/// position, on their predicates have the same count.
pub proof fn lemma_count_where_pointwise<T, U>(s: Seq<T>, p: spec_fn(T) -> bool, t: Seq<U>, q: spec_fn(U) -> bool)
    requires
        s.len() == t.len(),
        forall|i: int| 0 <= i < s.len() ==> p(#[trigger] s[i]) == q(t[i]),
    ensures
        count_where(s, p) == count_where(t, q),
    decreases s.len(),
{
    if s.len() > 0 {
        assert(p(s[s.len() - 1]) == q(t[t.len() - 1]));
        lemma_count_where_pointwise(s.drop_last(), p, t.drop_last(), q);
    }
}

} // verus!
