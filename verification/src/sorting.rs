//! Stable sorting of sequences by a strict order.

use vstd::prelude::*;

verus! {

/// Whether `before` is a strict order in which elements may tie.
pub open spec fn strict_order<T>(before: spec_fn(T, T) -> bool) -> bool {
    &&& forall|a: T, b: T| #[trigger] before(a, b) ==> !before(b, a)
    &&& forall|a: T, b: T, c: T|
        !#[trigger] before(a, b) && !#[trigger] before(b, c) ==> !before(a, c)
}

/// Whether no element comes before one that stands in front of it.
pub open spec fn in_order<T>(s: Seq<T>, before: spec_fn(T, T) -> bool) -> bool {
    forall|i: int, j: int| 0 <= i < j < s.len() ==> !before(#[trigger] s[j], #[trigger] s[i])
}

/// Whether two elements tie.
pub open spec fn tied<T>(a: T, b: T, before: spec_fn(T, T) -> bool) -> bool {
    !before(a, b) && !before(b, a)
}

/// `s` with `x` put in front of the elements at its end that `x` comes before.
pub open spec fn placed<T>(s: Seq<T>, x: T, before: spec_fn(T, T) -> bool) -> Seq<T>
    decreases s.len(),
{
    if s.len() == 0 || !before(x, s.last()) {
        s.push(x)
    } else {
        placed(s.drop_last(), x, before).push(s.last())
    }
}

/// `s` in order, where elements that tie keep their places relative to each other.
pub open spec fn arranged<T>(s: Seq<T>, before: spec_fn(T, T) -> bool) -> Seq<T>
    decreases s.len(),
{
    if s.len() == 0 {
        s
    } else {
        placed(arranged(s.drop_last(), before), s.last(), before)
    }
}

/// Where an element is put: after the last one that it does not come before.
pub proof fn lemma_placed_at<T>(s: Seq<T>, x: T, before: spec_fn(T, T) -> bool, p: int)
    requires
        0 <= p <= s.len(),
        p > 0 ==> !before(x, s[p - 1]),
        forall|q: int| p <= q < s.len() ==> before(x, #[trigger] s[q]),
    ensures
        placed(s, x, before) == s.insert(p, x),
    decreases s.len(),
{
    if p == s.len() {
        assert(s.insert(p, x) =~= s.push(x));
    } else {
        lemma_placed_at(s.drop_last(), x, before, p);
        assert(s.insert(p, x) =~= s.drop_last().insert(p, x).push(s.last()));
    }
}

proof fn lemma_placed_in_order<T>(s: Seq<T>, x: T, before: spec_fn(T, T) -> bool)
    requires
        strict_order(before),
        in_order(s, before),
    ensures
        in_order(placed(s, x, before), before),
        placed(s, x, before).len() == s.len() + 1,
        forall|i: int|
            0 <= i < placed(s, x, before).len() ==> #[trigger] placed(s, x, before)[i] == x
                || s.contains(placed(s, x, before)[i]),
    decreases s.len(),
{
    if s.len() == 0 || !before(x, s.last()) {
        let r = s.push(x);
        assert forall|i: int, j: int| 0 <= i < j < r.len() implies !before(
            #[trigger] r[j],
            #[trigger] r[i],
        ) by {
            if j == s.len() && i < s.len() - 1 {
                assert(!before(s.last(), s[i]));
            }
        }
    } else {
        let front = s.drop_last();
        lemma_placed_in_order(front, x, before);
        let rest = placed(front, x, before);
        let r = rest.push(s.last());
        assert forall|i: int| 0 <= i < rest.len() implies !before(s.last(), #[trigger] rest[i]) by {
            if rest[i] != x {
                let k = choose|k: int| 0 <= k < front.len() && front[k] == rest[i];
                assert(s[k] == rest[i]);
            }
        }
        assert forall|i: int| 0 <= i < r.len() implies #[trigger] r[i] == x || s.contains(r[i]) by {
            if i < rest.len() && rest[i] != x {
                let k = choose|k: int| 0 <= k < front.len() && front[k] == rest[i];
                assert(s[k] == r[i]);
            }
        }
    }
}

/// Arranging puts a sequence in order.
pub proof fn lemma_arranged_in_order<T>(s: Seq<T>, before: spec_fn(T, T) -> bool)
    requires
        strict_order(before),
    ensures
        in_order(arranged(s, before), before),
        arranged(s, before).len() == s.len(),
    decreases s.len(),
{
    if s.len() > 0 {
        lemma_arranged_in_order(s.drop_last(), before);
        lemma_placed_in_order(arranged(s.drop_last(), before), s.last(), before);
    }
}

proof fn lemma_placed_multiset<T>(s: Seq<T>, x: T, before: spec_fn(T, T) -> bool)
    ensures
        placed(s, x, before).to_multiset() == s.to_multiset().insert(x),
    decreases s.len(),
{
    broadcast use vstd::seq_lib::group_to_multiset_ensures;

    if !(s.len() == 0 || !before(x, s.last())) {
        lemma_placed_multiset(s.drop_last(), x, before);
        assert(s =~= s.drop_last().push(s.last()));
        assert(s.to_multiset().insert(x) =~= s.drop_last().to_multiset().insert(x).insert(
            s.last(),
        ));
    }
}

/// Arranging keeps every element, as often as it occurs.
pub proof fn lemma_arranged_multiset<T>(s: Seq<T>, before: spec_fn(T, T) -> bool)
    ensures
        arranged(s, before).to_multiset() == s.to_multiset(),
    decreases s.len(),
{
    broadcast use vstd::seq_lib::group_to_multiset_ensures;

    if s.len() > 0 {
        lemma_arranged_multiset(s.drop_last(), before);
        lemma_placed_multiset(arranged(s.drop_last(), before), s.last(), before);
        assert(s =~= s.drop_last().push(s.last()));
    }
}

proof fn lemma_filter_push<T>(s: Seq<T>, x: T, keep: spec_fn(T) -> bool)
    ensures
        s.push(x).filter(keep) == if keep(x) {
            s.filter(keep).push(x)
        } else {
            s.filter(keep)
        },
{
    reveal(Seq::filter);
    assert(s.push(x).drop_last() =~= s);
}

proof fn lemma_placed_stable<T>(s: Seq<T>, x: T, before: spec_fn(T, T) -> bool, key: T)
    requires
        strict_order(before),
    ensures
        placed(s, x, before).filter(|y: T| tied(y, key, before)) == if tied(x, key, before) {
            s.filter(|y: T| tied(y, key, before)).push(x)
        } else {
            s.filter(|y: T| tied(y, key, before))
        },
    decreases s.len(),
{
    let keep = |y: T| tied(y, key, before);
    if s.len() == 0 || !before(x, s.last()) {
        lemma_filter_push(s, x, keep);
    } else {
        let front = s.drop_last();
        lemma_placed_stable(front, x, before, key);
        lemma_filter_push(placed(front, x, before), s.last(), keep);
        lemma_filter_push(front, s.last(), keep);
        assert(s =~= front.push(s.last()));
        if tied(x, key, before) && tied(s.last(), key, before) {
            assert(!before(x, key) && !before(key, s.last()));
        }
    }
}

/// Arranging keeps elements that tie in the order in which they stood.
pub proof fn lemma_arranged_stable<T>(s: Seq<T>, before: spec_fn(T, T) -> bool, key: T)
    requires
        strict_order(before),
    ensures
        arranged(s, before).filter(|y: T| tied(y, key, before)) == s.filter(
            |y: T| tied(y, key, before),
        ),
    decreases s.len(),
{
    if s.len() > 0 {
        let front = s.drop_last();
        lemma_arranged_stable(front, before, key);
        lemma_placed_stable(arranged(front, before), s.last(), before, key);
        lemma_filter_push(front, s.last(), |y: T| tied(y, key, before));
        assert(s =~= front.push(s.last()));
    }
}

} // verus!
