//! Spec-level building blocks shared by the record collections: counting the
//! elements of a sequence that satisfy a predicate, summing a projection
//! over a sequence, and locating the first element that satisfies a
//! predicate, together with the lemmas the loop proofs need.

use vstd::prelude::*;

use crate::datetime::DateTime;

verus! {

/// How many elements of `s` satisfy `p`.
pub open spec fn count_where<T>(s: Seq<T>, p: spec_fn(T) -> bool) -> int
    decreases s.len(),
{
    if s.len() == 0 {
        0
    } else {
        count_where(s.drop_last(), p) + if p(s.last()) {
            1int
        } else {
            0int
        }
    }
}

/// The sum of `f` over the elements of `s`.
pub open spec fn sum_of<T>(s: Seq<T>, f: spec_fn(T) -> int) -> int
    decreases s.len(),
{
    if s.len() == 0 {
        0
    } else {
        sum_of(s.drop_last(), f) + f(s.last())
    }
}

/// The first element of `s` that satisfies `p`, if any.
pub open spec fn find_first<T>(s: Seq<T>, p: spec_fn(T) -> bool) -> Option<T>
    decreases s.len(),
{
    if s.len() == 0 {
        None
    } else if p(s[0]) {
        Some(s[0])
    } else {
        find_first(s.drop_first(), p)
    }
}

pub proof fn lemma_count_where_take_succ<T>(s: Seq<T>, p: spec_fn(T) -> bool, i: int)
    requires
        0 <= i < s.len(),
    ensures
        count_where(s.take(i + 1), p) == count_where(s.take(i), p) + if p(s[i]) {
            1int
        } else {
            0int
        },
{
    assert(s.take(i + 1).drop_last() =~= s.take(i));
    assert(s.take(i + 1).last() == s[i]);
}

pub proof fn lemma_count_where_bounds<T>(s: Seq<T>, p: spec_fn(T) -> bool)
    ensures
        0 <= count_where(s, p) <= s.len(),
    decreases s.len(),
{
    if s.len() > 0 {
        lemma_count_where_bounds(s.drop_last(), p);
    }
}

pub proof fn lemma_sum_of_take_succ<T>(s: Seq<T>, f: spec_fn(T) -> int, i: int)
    requires
        0 <= i < s.len(),
    ensures
        sum_of(s.take(i + 1), f) == sum_of(s.take(i), f) + f(s[i]),
{
    assert(s.take(i + 1).drop_last() =~= s.take(i));
    assert(s.take(i + 1).last() == s[i]);
}

/// A sum of elementwise-bounded terms is bounded by `len * bound`.
pub proof fn lemma_sum_of_abs_bound<T>(s: Seq<T>, f: spec_fn(T) -> int, bound: int)
    requires
        0 <= bound,
        forall|i: int| 0 <= i < s.len() ==> -bound <= #[trigger] f(s[i]) <= bound,
    ensures
        -(s.len() * bound) <= sum_of(s, f) <= s.len() * bound,
    decreases s.len(),
{
    if s.len() == 0 {
    } else {
        let pre = s.drop_last();
        assert(forall|i: int| 0 <= i < pre.len() ==> -bound <= #[trigger] f(pre[i]) <= bound);
        lemma_sum_of_abs_bound(pre, f, bound);
        assert(-bound <= f(s.last()) <= bound);
        assert(pre.len() * bound + bound == s.len() * bound) by (nonlinear_arith)
            requires
                pre.len() == s.len() - 1,
        ;
    }
}

pub proof fn lemma_find_first_skip_succ<T>(s: Seq<T>, p: spec_fn(T) -> bool, i: int)
    requires
        0 <= i < s.len(),
        !p(s[i]),
    ensures
        find_first(s.skip(i), p) == find_first(s.skip(i + 1), p),
{
    assert(s.skip(i)[0] == s[i]);
    assert(s.skip(i).drop_first() =~= s.skip(i + 1));
}

/// Partial sums of terms that each fit an `i64` stay far inside `i128`:
/// the accumulator of a summing loop cannot overflow.
pub proof fn lemma_sum_partial_in_i128<T>(s: Seq<T>, f: spec_fn(T) -> int, i: int)
    requires
        0 <= i < s.len(),
        s.len() <= 0xffff_ffff_ffff_ffff,
        forall|j: int| 0 <= j < s.len() ==> i64::MIN <= #[trigger] f(s[j]) <= i64::MAX,
    ensures
        i128::MIN <= sum_of(s.take(i), f) + f(s[i]) <= i128::MAX,
        sum_of(s.take(i + 1), f) == sum_of(s.take(i), f) + f(s[i]),
{
    let bound = 0x8000_0000_0000_0000int;
    assert(forall|j: int|
        0 <= j < s.take(i).len() ==> -bound <= #[trigger] f(s.take(i)[j]) <= bound);
    lemma_sum_of_abs_bound(s.take(i), f, bound);
    assert((i + 1) * bound <= 0x1_0000_0000_0000_0000 * bound) by (nonlinear_arith)
        requires
            i + 1 <= 0x1_0000_0000_0000_0000,
            0 <= bound,
    ;
    assert(i * bound + bound == (i + 1) * bound) by (nonlinear_arith);
    lemma_sum_of_take_succ(s, f, i);
}


/// `count_where` can also be unfolded at the front of the sequence.
pub proof fn lemma_count_where_drop_first<T>(s: Seq<T>, p: spec_fn(T) -> bool)
    requires
        s.len() > 0,
    ensures
        count_where(s, p) == count_where(s.drop_first(), p) + if p(s[0]) {
            1int
        } else {
            0int
        },
    decreases s.len(),
{
    if s.len() == 1 {
        assert(s.drop_last().len() == 0);
        assert(count_where(s.drop_last(), p) == 0);
        assert(s.drop_first().len() == 0);
        assert(count_where(s.drop_first(), p) == 0);
        assert(s[0] == s.last());
    } else {
        lemma_count_where_drop_first(s.drop_last(), p);
        assert(s.drop_last()[0] == s[0]);
        assert(s.drop_last().drop_first() =~= s.drop_first().drop_last());
        assert(s.drop_first().last() == s.last());
        assert(count_where(s.drop_first(), p) == count_where(s.drop_first().drop_last(), p)
            + if p(s.last()) {
            1int
        } else {
            0int
        });
        assert(count_where(s, p) == count_where(s.drop_last(), p) + if p(s.last()) {
            1int
        } else {
            0int
        });
        assert(count_where(s.drop_last(), p) == count_where(s.drop_last().drop_first(), p)
            + if p(s[0]) {
            1int
        } else {
            0int
        });
        assert(count_where(s.drop_last().drop_first(), p) == count_where(
            s.drop_first().drop_last(),
            p,
        ));
    }
}

/// When no element is counted, terms that vanish off the counted set sum
/// to nothing: an empty included set forces a zero total.
pub proof fn lemma_sum_zero_without_hits<T>(s: Seq<T>, p: spec_fn(T) -> bool, f: spec_fn(T) -> int)
    requires
        count_where(s, p) == 0,
        forall|j: int| 0 <= j < s.len() && !p(s[j]) ==> #[trigger] f(s[j]) == 0,
    ensures
        sum_of(s, f) == 0,
    decreases s.len(),
{
    if s.len() > 0 {
        lemma_count_where_bounds(s.drop_last(), p);
        assert(!p(s.last()));
        assert(f(s[s.len() - 1]) == 0);
        lemma_sum_zero_without_hits(s.drop_last(), p, f);
    }
}


/// The least timestamp, measured by `at`, among the elements of `s` that
/// satisfy `p`; nothing when no element does.
pub open spec fn earliest_at<T>(
    s: Seq<T>,
    p: spec_fn(T) -> bool,
    at: spec_fn(T) -> DateTime,
) -> Option<DateTime>
    decreases s.len(),
{
    if s.len() == 0 {
        None
    } else {
        let pre = earliest_at(s.drop_last(), p, at);
        if p(s.last()) {
            match pre {
                Some(t) => if t.secs <= at(s.last()).secs {
                    Some(t)
                } else {
                    Some(at(s.last()))
                },
                None => Some(at(s.last())),
            }
        } else {
            pre
        }
    }
}

pub proof fn lemma_earliest_at_take_succ<T>(
    s: Seq<T>,
    p: spec_fn(T) -> bool,
    at: spec_fn(T) -> DateTime,
    i: int,
)
    requires
        0 <= i < s.len(),
    ensures
        earliest_at(s.take(i + 1), p, at) == {
            let pre = earliest_at(s.take(i), p, at);
            if p(s[i]) {
                match pre {
                    Some(t) => if t.secs <= at(s[i]).secs {
                        Some(t)
                    } else {
                        Some(at(s[i]))
                    },
                    None => Some(at(s[i])),
                }
            } else {
                pre
            }
        },
{
    assert(s.take(i + 1).drop_last() =~= s.take(i));
    assert(s.take(i + 1).last() == s[i]);
}

/// What `earliest_at` returns is a qualifying element's timestamp and is
/// no later than any qualifying element's timestamp; it is nothing exactly
/// when no element qualifies.
pub proof fn lemma_earliest_at_is_minimum<T>(s: Seq<T>, p: spec_fn(T) -> bool, at: spec_fn(T) -> DateTime)
    ensures
        match earliest_at(s, p, at) {
            Some(t) => (exists|i: int| 0 <= i < s.len() && #[trigger] p(s[i]) && at(s[i]) == t)
                && forall|i: int| 0 <= i < s.len() && #[trigger] p(s[i]) ==> t.secs <= at(s[i]).secs,
            None => forall|i: int| 0 <= i < s.len() ==> !p(#[trigger] s[i]),
        },
    decreases s.len(),
{
    if s.len() > 0 {
        let pre = s.drop_last();
        lemma_earliest_at_is_minimum(pre, p, at);
        assert(forall|i: int| 0 <= i < pre.len() ==> pre[i] == s[i]);
        assert(s.last() == s[s.len() - 1]);
    }
}

} // verus!
