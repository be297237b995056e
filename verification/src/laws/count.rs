//! How often something occurs in a sequence, and in which order.
use vstd::prelude::*;

verus! {

/// How often a value occurs.
#[verifier::opaque]
pub open spec fn times<A>(s: Seq<A>, x: A) -> nat
    decreases s.len(),
{
    if s.len() == 0 {
        0
    } else {
        times(s.drop_last(), x) + if s.last() == x {
            1nat
        } else {
            0nat
        }
    }
}

/// 1 where a condition holds, and 0 where it does not.
pub open spec fn once(cond: bool) -> nat {
    if cond {
        1
    } else {
        0
    }
}

/// The value occurs nowhere in the empty sequence.
pub broadcast proof fn lemma_times_empty<A>(x: A)
    ensures
        #[trigger] times(Seq::<A>::empty(), x) == 0,
{
    reveal(times);
}

/// One more value at the end counts where it is the one asked for.
pub broadcast proof fn lemma_times_push<A>(s: Seq<A>, y: A, x: A)
    ensures
        #[trigger] times(s.push(y), x) == times(s, x) + once(y == x),
{
    reveal(times);
    assert(s.push(y).drop_last() =~= s);
}

/// Occurrences add up.
pub broadcast proof fn lemma_times_add<A>(a: Seq<A>, b: Seq<A>, x: A)
    ensures
        #[trigger] times(a + b, x) == times(a, x) + times(b, x),
    decreases b.len(),
{
    reveal(times);
    if b.len() == 0 {
        assert(a + b =~= a);
    } else {
        assert((a + b).drop_last() =~= a + b.drop_last());
        assert((a + b).last() == b.last());
        lemma_times_add(a, b.drop_last(), x);
    }
}

pub broadcast group group_times {
    lemma_times_empty,
    lemma_times_push,
    lemma_times_add,
}

/// Two values count one by one.
pub proof fn lemma_times_two<A>(a: A, b: A, x: A)
    ensures
        times(seq![a, b], x) == once(a == x) + once(b == x),
{
    broadcast use group_times;

    assert(seq![a, b] =~= Seq::<A>::empty().push(a).push(b));
}

/// Three values count one by one.
pub proof fn lemma_times_three<A>(a: A, b: A, c: A, x: A)
    ensures
        times(seq![a, b, c], x) == once(a == x) + once(b == x) + once(c == x),
{
    broadcast use group_times;

    assert(seq![a, b, c] =~= Seq::<A>::empty().push(a).push(b).push(c));
}

/// Four values count one by one.
pub proof fn lemma_times_four<A>(a: A, b: A, c: A, d: A, x: A)
    ensures
        times(seq![a, b, c, d], x) == once(a == x) + once(b == x) + once(c == x) + once(d == x),
{
    broadcast use group_times;

    assert(seq![a, b, c, d] =~= Seq::<A>::empty().push(a).push(b).push(c).push(d));
}

/// Five values count one by one.
pub proof fn lemma_times_five<A>(a: A, b: A, c: A, d: A, e: A, x: A)
    ensures
        times(seq![a, b, c, d, e], x) == once(a == x) + once(b == x) + once(c == x) + once(d == x) + once(e == x),
{
    broadcast use group_times;

    assert(seq![a, b, c, d, e] =~= Seq::<A>::empty().push(a).push(b).push(c).push(d).push(e));
}

/// Six values count one by one.
pub proof fn lemma_times_six<A>(a: A, b: A, c: A, d: A, e: A, f: A, x: A)
    ensures
        times(seq![a, b, c, d, e, f], x) == once(a == x) + once(b == x) + once(c == x) + once(d == x) + once(e == x) + once(f == x),
{
    broadcast use group_times;

    assert(seq![a, b, c, d, e, f] =~= Seq::<A>::empty().push(a).push(b).push(c).push(d).push(e).push(f));
}

/// What occurs is in the sequence, and the other way round.
pub proof fn lemma_times_contains<A>(s: Seq<A>, x: A)
    ensures
        times(s, x) > 0 <==> s.contains(x),
    decreases s.len(),
{
    reveal(times);
    if s.len() > 0 {
        lemma_times_contains(s.drop_last(), x);
        if s.contains(x) {
            let i = s.index_of(x);
            if i < s.len() - 1 {
                assert(s.drop_last()[i] == x);
            }
        }
        if s.drop_last().contains(x) {
            let i = s.drop_last().index_of(x);
            assert(s[i] == x);
        }
        if s.last() == x {
            assert(s[s.len() - 1] == x);
        }
    }
}

/// What occurs at two places occurs twice.
pub proof fn lemma_times_twice<A>(s: Seq<A>, i: int, j: int)
    requires
        0 <= i < j < s.len(),
        s[i] == s[j],
    ensures
        times(s, s[i]) >= 2,
    decreases s.len(),
{
    reveal(times);
    if j == s.len() - 1 {
        assert(s.drop_last()[i] == s[i]);
        lemma_times_contains(s.drop_last(), s[i]);
    } else {
        assert(s.drop_last()[i] == s[i]);
        assert(s.drop_last()[j] == s[j]);
        lemma_times_twice(s.drop_last(), i, j);
    }
}

/// Whether whatever is `a` stands in front of whatever is `b`.
pub open spec fn before<A>(s: Seq<A>, a: A, b: A) -> bool {
    forall|i: int, j: int|
        0 <= i < s.len() && 0 <= j < s.len() && #[trigger] s[i] == a && #[trigger] s[j] == b ==> i < j
}

/// Whether one value stands right in front of another wherever it stands.
pub open spec fn followed<A>(s: Seq<A>, a: A, b: A) -> bool {
    forall|i: int| 0 <= i < s.len() && #[trigger] s[i] == a ==> i + 1 < s.len() && s[i + 1] == b
}

/// Whether one value stands right behind another wherever it stands.
pub open spec fn led<A>(s: Seq<A>, a: A, b: A) -> bool {
    forall|i: int| 0 <= i < s.len() && #[trigger] s[i] == b ==> i > 0 && s[i - 1] == a
}

/// Neighbours stay neighbours where sequences are joined.
pub proof fn lemma_followed_add<A>(a: Seq<A>, b: Seq<A>, x: A, y: A)
    requires
        followed(a, x, y),
        followed(b, x, y),
    ensures
        followed(a + b, x, y),
{
    let s = a + b;
    assert forall|i: int| 0 <= i < s.len() && #[trigger] s[i] == x implies i + 1 < s.len() && s[i
        + 1] == y by {
        if i < a.len() {
            assert(a[i] == x);
        } else {
            assert(b[i - a.len()] == x);
        }
    }
}

/// Neighbours stay neighbours where sequences are joined.
pub proof fn lemma_led_add<A>(a: Seq<A>, b: Seq<A>, x: A, y: A)
    requires
        led(a, x, y),
        led(b, x, y),
    ensures
        led(a + b, x, y),
{
    let s = a + b;
    assert forall|i: int| 0 <= i < s.len() && #[trigger] s[i] == y implies i > 0 && s[i - 1]
        == x by {
        if i < a.len() {
            assert(a[i] == y);
        } else {
            assert(b[i - a.len()] == y);
        }
    }
}

/// What does not occur has the neighbours that one likes.
pub proof fn lemma_absent<A>(s: Seq<A>, x: A, y: A)
    requires
        times(s, x) == 0,
    ensures
        followed(s, x, y),
        led(s, y, x),
{
    lemma_times_contains(s, x);
}

/// Whether the stages of a sequence never go down and lie between two limits. A value
/// without a stage may stand anywhere.
pub open spec fn staged<A>(s: Seq<A>, stage: spec_fn(A) -> Option<int>, lo: int, hi: int) -> bool {
    &&& forall|i: int|
        0 <= i < s.len() ==> (stage(#[trigger] s[i]) matches Some(k) ==> lo <= k < hi)
    &&& forall|i: int, j: int|
        0 <= i < j < s.len() && stage(#[trigger] s[i]) is Some && stage(#[trigger] s[j]) is Some
            ==> stage(s[i])->0 <= stage(s[j])->0
}

/// Sequences in the order of their stages stay in it one behind the other.
pub proof fn lemma_staged_add<A>(
    a: Seq<A>,
    b: Seq<A>,
    stage: spec_fn(A) -> Option<int>,
    lo: int,
    mid: int,
    hi: int,
)
    requires
        staged(a, stage, lo, mid),
        staged(b, stage, mid, hi),
        lo <= mid <= hi,
    ensures
        staged(a + b, stage, lo, hi),
{
    let s = a + b;
    assert forall|i: int| 0 <= i < s.len() implies (stage(#[trigger] s[i]) matches Some(k) ==> lo
        <= k < hi) by {
        if i < a.len() {
            assert(s[i] == a[i]);
        } else {
            assert(s[i] == b[i - a.len()]);
        }
    }
    assert forall|i: int, j: int|
        0 <= i < j < s.len() && stage(#[trigger] s[i]) is Some && stage(#[trigger] s[j])
            is Some implies stage(s[i])->0 <= stage(s[j])->0 by {
        if j < a.len() {
            assert(s[i] == a[i] && s[j] == a[j]);
        } else if i >= a.len() {
            assert(s[i] == b[i - a.len()] && s[j] == b[j - a.len()]);
        } else {
            assert(s[i] == a[i] && s[j] == b[j - a.len()]);
        }
    }
}

/// In the order of stages, what has the lower stage stands in front.
pub proof fn lemma_staged_before<A>(
    s: Seq<A>,
    stage: spec_fn(A) -> Option<int>,
    lo: int,
    hi: int,
    a: A,
    b: A,
)
    requires
        staged(s, stage, lo, hi),
        stage(a) is Some && stage(b) is Some,
        stage(a)->0 < stage(b)->0,
    ensures
        before(s, a, b),
{
    assert forall|i: int, j: int|
        0 <= i < s.len() && 0 <= j < s.len() && #[trigger] s[i] == a && #[trigger] s[j]
            == b implies i < j by {
        if j < i {
            assert(stage(s[j])->0 <= stage(s[i])->0);
        }
    }
}

/// What is written in another way occurs as often as before, where no two values are written
/// in one way.
pub proof fn lemma_times_map<A, B>(s: Seq<A>, f: spec_fn(A) -> B, x: A)
    requires
        forall|a: A| #[trigger] f(a) == f(x) ==> a == x,
    ensures
        times(s.map_values(f), f(x)) == times(s, x),
    decreases s.len(),
{
    reveal(times);
    if s.len() > 0 {
        lemma_times_map(s.drop_last(), f, x);
        assert(s.map_values(f).drop_last() =~= s.drop_last().map_values(f));
    }
}

/// What no value is written as occurs nowhere.
pub proof fn lemma_times_map_other<A, B>(s: Seq<A>, f: spec_fn(A) -> B, y: B)
    requires
        forall|a: A| #[trigger] f(a) != y,
    ensures
        times(s.map_values(f), y) == 0,
    decreases s.len(),
{
    reveal(times);
    if s.len() > 0 {
        lemma_times_map_other(s.drop_last(), f, y);
        assert(s.map_values(f).drop_last() =~= s.drop_last().map_values(f));
    }
}

} // verus!
