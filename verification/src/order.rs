//! Stable sorting of values by a rank that several of them may share.

use crate::seqs;
use vstd::prelude::*;

verus! {

/// Values that stand in a total order, in which different values may be equal.
pub trait Ranked: View + Sized {
    /// Whether `a` may stand before `b`.
    spec fn at_most(a: Self::V, b: Self::V) -> bool;

    /// Any two values are comparable.
    proof fn lemma_total(a: Self::V, b: Self::V)
        ensures
            Self::at_most(a, b) || Self::at_most(b, a),
    ;

    /// The order is transitive.
    proof fn lemma_transitive(a: Self::V, b: Self::V, c: Self::V)
        requires
            Self::at_most(a, b),
            Self::at_most(b, c),
        ensures
            Self::at_most(a, c),
    ;

    /// Decides whether `self` may stand before `other`.
    fn is_at_most(&self, other: &Self) -> (r: bool)
        ensures
            r == Self::at_most(self@, other@),
    ;
}

/// The views of the elements of `s`.
pub open spec fn views<T: View>(s: Seq<T>) -> Seq<T::V> {
    s.map_values(|t: T| t@)
}

/// The views of a sequence are the views of its elements, each in its place.
pub proof fn law_views_keep_their_places<T: View>(s: Seq<T>)
    ensures
        views(s).len() == s.len(),
        forall|i: int| 0 <= i < s.len() ==> #[trigger] views(s)[i] == s[i]@,
{
}

/// `x` put into `s` before the first element that it may stand before.
pub open spec fn placed<T: Ranked>(x: T::V, s: Seq<T::V>) -> Seq<T::V>
    decreases s.len(),
{
    if s.len() == 0 || T::at_most(x, s.first()) {
        seq![x] + s
    } else {
        seq![s.first()] + placed::<T>(x, s.drop_first())
    }
}

/// `s` in ascending order, elements of equal rank in the order in which they stand in `s`.
pub open spec fn sorted<T: Ranked>(s: Seq<T::V>) -> Seq<T::V>
    decreases s.len(),
{
    if s.len() == 0 {
        s
    } else {
        placed::<T>(s.first(), sorted::<T>(s.drop_first()))
    }
}

/// Whether every element of `s` may stand before every later one.
pub open spec fn is_ordered<T: Ranked>(s: Seq<T::V>) -> bool {
    forall|i: int, j: int| 0 <= i < j < s.len() ==> T::at_most(#[trigger] s[i], #[trigger] s[j])
}

/// Whether `a` and `b` have the same rank.
pub open spec fn same_rank<T: Ranked>(a: T::V, b: T::V) -> bool {
    T::at_most(a, b) && T::at_most(b, a)
}

proof fn lemma_placed_at<T: Ranked>(x: T::V, s: Seq<T::V>, p: int)
    requires
        0 <= p <= s.len(),
        forall|i: int| 0 <= i < p ==> !T::at_most(x, #[trigger] s[i]),
        p < s.len() ==> T::at_most(x, s[p]),
    ensures
        placed::<T>(x, s) == s.insert(p, x),
    decreases s.len(),
{
    if p == 0 {
        assert(seq![x] + s =~= s.insert(0, x));
    } else {
        let rest = s.drop_first();
        assert(!T::at_most(x, s[0]));
        assert forall|i: int| 0 <= i < p - 1 implies !T::at_most(x, #[trigger] rest[i]) by {
            assert(rest[i] == s[i + 1]);
        }
        lemma_placed_at::<T>(x, rest, p - 1);
        assert(seq![s.first()] + rest.insert(p - 1, x) =~= s.insert(p, x));
    }
}

/// The place that `placed` finds: after every element that `x` may not stand before.
proof fn lemma_placed_form<T: Ranked>(x: T::V, s: Seq<T::V>) -> (p: int)
    ensures
        0 <= p <= s.len(),
        forall|i: int| 0 <= i < p ==> !T::at_most(x, #[trigger] s[i]),
        p < s.len() ==> T::at_most(x, s[p]),
        placed::<T>(x, s) == s.insert(p, x),
    decreases s.len(),
{
    if s.len() == 0 || T::at_most(x, s.first()) {
        lemma_placed_at::<T>(x, s, 0);
        0
    } else {
        let rest = s.drop_first();
        let p = lemma_placed_form::<T>(x, rest) + 1;
        assert forall|i: int| 0 <= i < p implies !T::at_most(x, #[trigger] s[i]) by {
            if i > 0 {
                assert(s[i] == rest[i - 1]);
            }
        }
        lemma_placed_at::<T>(x, s, p);
        p
    }
}

/// Putting an element in front adds it once to the elements of a sequence.
proof fn lemma_multiset_prepend<A>(x: A, s: Seq<A>)
    ensures
        (seq![x] + s).to_multiset() == s.to_multiset().insert(x),
{
    let t = seq![x] + s;
    t.to_multiset_ensures();
    assert(t.remove(0) =~= s);
    assert(t[0] == x);
    assert(t.contains(x));
    assert(t.to_multiset() =~= s.to_multiset().insert(x));
}

/// Putting an element in at any place adds it once to the elements of a sequence.
pub proof fn lemma_multiset_insert<A>(x: A, s: Seq<A>, p: int)
    requires
        0 <= p <= s.len(),
    ensures
        s.insert(p, x).to_multiset() == s.to_multiset().insert(x),
{
    let t = s.insert(p, x);
    t.to_multiset_ensures();
    assert(t.remove(p) =~= s);
    assert(t[p] == x);
    assert(t.contains(x));
    assert(t.to_multiset() =~= s.to_multiset().insert(x));
}

/// Sorting keeps every element, as often as it occurs.
pub proof fn law_sorting_keeps_elements<T: Ranked>(s: Seq<T::V>)
    ensures
        sorted::<T>(s).len() == s.len(),
        sorted::<T>(s).to_multiset() == s.to_multiset(),
    decreases s.len(),
{
    if s.len() > 0 {
        let rest = s.drop_first();
        law_sorting_keeps_elements::<T>(rest);
        let p = lemma_placed_form::<T>(s.first(), sorted::<T>(rest));
        lemma_multiset_insert(s.first(), sorted::<T>(rest), p);
        assert(s =~= seq![s.first()] + rest);
        lemma_multiset_prepend(s.first(), rest);
    }
}

/// A sorted sequence is in ascending order.
pub proof fn law_sorting_orders<T: Ranked>(s: Seq<T::V>)
    ensures
        is_ordered::<T>(sorted::<T>(s)),
    decreases s.len(),
{
    if s.len() > 0 {
        let x = s.first();
        let rest = sorted::<T>(s.drop_first());
        law_sorting_orders::<T>(s.drop_first());
        let p = lemma_placed_form::<T>(x, rest);
        let out = rest.insert(p, x);
        assert forall|i: int, j: int| 0 <= i < j < out.len() implies T::at_most(
            #[trigger] out[i],
            #[trigger] out[j],
        ) by {
            if j == p {
                assert(out[i] == rest[i]);
                T::lemma_total(rest[i], x);
            } else if i == p {
                assert(out[j] == rest[j - 1]);
                if j - 1 > p {
                    assert(T::at_most(rest[p], rest[j - 1]));
                    T::lemma_transitive(x, rest[p], rest[j - 1]);
                }
            } else {
                let i2 = if i < p { i } else { i - 1 };
                let j2 = if j < p { j } else { j - 1 };
                assert(out[i] == rest[i2] && out[j] == rest[j2]);
            }
        }
    }
}

/// Sorting keeps the order of elements that have the same rank.
pub proof fn law_sorting_is_stable<T: Ranked>(s: Seq<T::V>, rank: T::V)
    ensures
        sorted::<T>(s).filter(|e: T::V| same_rank::<T>(e, rank)) == s.filter(
            |e: T::V| same_rank::<T>(e, rank),
        ),
    decreases s.len(),
{
    let f = |e: T::V| same_rank::<T>(e, rank);
    if s.len() > 0 {
        let x = s.first();
        let tail = s.drop_first();
        let rest = sorted::<T>(tail);
        law_sorting_is_stable::<T>(tail, rank);
        let p = lemma_placed_form::<T>(x, rest);
        let front = rest.take(p);
        let back = rest.skip(p);
        assert(rest =~= front + back);
        assert(rest.insert(p, x) =~= front + (seq![x] + back));
        assert(s =~= seq![x] + tail);
        Seq::filter_distributes_over_add(front, back, f);
        Seq::filter_distributes_over_add(front, seq![x] + back, f);
        Seq::filter_distributes_over_add(seq![x], back, f);
        Seq::filter_distributes_over_add(seq![x], tail, f);
        if f(x) {
            assert forall|i: int| 0 <= i < front.len() implies !f(#[trigger] front[i]) by {
                assert(front[i] == rest[i]);
                if f(rest[i]) {
                    T::lemma_transitive(x, rank, rest[i]);
                }
            }
            seqs::lemma_filter_drops_all(front, f);
            assert(Seq::<T::V>::empty() + back.filter(f) =~= back.filter(f));
            assert(Seq::<T::V>::empty() + (seq![x].filter(f) + back.filter(f)) =~= seq![x].filter(
                f,
            ) + back.filter(f));
        } else {
            assert(seq![x] =~= Seq::<T::V>::empty().push(x));
            seqs::lemma_filter_push(Seq::<T::V>::empty(), f, x);
            seqs::lemma_filter_drops_all(Seq::<T::V>::empty(), f);
            assert(seq![x].filter(f) =~= Seq::<T::V>::empty());
            assert(front.filter(f) + (Seq::<T::V>::empty() + back.filter(f)) =~= front.filter(f)
                + back.filter(f));
            assert(Seq::<T::V>::empty() + tail.filter(f) =~= tail.filter(f));
        }
    }
}

/// Filtering keeps the elements that satisfy a condition, as often as they occur.
pub proof fn lemma_filter_count<A>(s: Seq<A>, p: spec_fn(A) -> bool, x: A)
    ensures
        s.filter(p).to_multiset().count(x) == if p(x) {
            s.to_multiset().count(x)
        } else {
            0
        },
    decreases s.len(),
{
    if s.len() == 0 {
        seqs::lemma_filter_drops_all(s, p);
        assert(s.filter(p) =~= s);
        s.to_multiset_ensures();
        assert(!s.contains(x));
    } else {
        let init = s.drop_last();
        let y = s.last();
        assert(s =~= init.push(y));
        assert(s =~= init.insert(init.len() as int, y));
        seqs::lemma_filter_push(init, p, y);
        lemma_filter_count(init, p, x);
        lemma_multiset_insert(y, init, init.len() as int);
        let f = init.filter(p);
        assert(f.push(y) =~= f.insert(f.len() as int, y));
        lemma_multiset_insert(y, f, f.len() as int);
    }
}

/// Sorting changes nothing of a sequence that is in ascending order.
pub proof fn law_sorting_keeps_ordered<T: Ranked>(s: Seq<T::V>)
    requires
        is_ordered::<T>(s),
    ensures
        sorted::<T>(s) == s,
    decreases s.len(),
{
    if s.len() > 0 {
        let rest = s.drop_first();
        assert forall|i: int, j: int| 0 <= i < j < rest.len() implies T::at_most(
            #[trigger] rest[i],
            #[trigger] rest[j],
        ) by {
            assert(rest[i] == s[i + 1] && rest[j] == s[j + 1]);
        }
        law_sorting_keeps_ordered::<T>(rest);
        if rest.len() > 0 {
            assert(T::at_most(s[0], s[1]));
        }
        assert(seq![s.first()] + rest =~= s);
    }
}

/// A sorted sequence has the elements of the sequence that was sorted.
pub proof fn lemma_sorted_contains<T: Ranked>(s: Seq<T::V>, x: T::V)
    ensures
        sorted::<T>(s).contains(x) <==> s.contains(x),
{
    law_sorting_keeps_elements::<T>(s);
    s.to_multiset_ensures();
    sorted::<T>(s).to_multiset_ensures();
    assert(sorted::<T>(s).to_multiset().count(x) == s.to_multiset().count(x));
}

/// Sorting keeps the number of elements that satisfy a condition.
pub proof fn lemma_sorted_count<T: Ranked>(s: Seq<T::V>, f: spec_fn(T::V) -> bool)
    ensures
        sorted::<T>(s).filter(f).len() == s.filter(f).len(),
    decreases s.len(),
{
    if s.len() > 0 {
        let x = s.first();
        let tail = s.drop_first();
        let rest = sorted::<T>(tail);
        lemma_sorted_count::<T>(tail, f);
        let p = lemma_placed_form::<T>(x, rest);
        let front = rest.take(p);
        let back = rest.skip(p);
        assert(rest =~= front + back);
        assert(rest.insert(p, x) =~= front + (seq![x] + back));
        assert(s =~= seq![x] + tail);
        Seq::filter_distributes_over_add(front, back, f);
        Seq::filter_distributes_over_add(front, seq![x] + back, f);
        Seq::filter_distributes_over_add(seq![x], back, f);
        Seq::filter_distributes_over_add(seq![x], tail, f);
    }
}

/// An element that comes first among those of its rank stands in the sorted sequence no
/// further back than there are elements that rank before it.
pub proof fn lemma_sorted_position<T: Ranked>(s: Seq<T::V>, i: int) -> (k: int)
    requires
        0 <= i < s.len(),
        forall|j: int| 0 <= j < i ==> !same_rank::<T>(#[trigger] s[j], s[i]),
    ensures
        0 <= k < sorted::<T>(s).len(),
        sorted::<T>(s)[k] == s[i],
        k <= s.filter(|e: T::V| !T::at_most(s[i], e)).len(),
{
    let x = s[i];
    let out = sorted::<T>(s);
    let alike = |e: T::V| same_rank::<T>(e, x);
    let below = |e: T::V| !T::at_most(x, e);
    T::lemma_total(x, x);
    lemma_sorted_contains::<T>(s, x);
    assert(s.contains(s[i]));
    let w = choose|w: int| 0 <= w < out.len() && out[w] == x;
    seqs::lemma_first_where(out, alike);
    assert(alike(out[w]));
    let k = seqs::first_where(out, alike)->0;
    law_sorting_is_stable::<T>(s, x);
    seqs::lemma_first_where_at(s, alike, i);
    seqs::lemma_filter_first(s, alike);
    seqs::lemma_filter_first(out, alike);
    assert(out[k] == x);
    law_sorting_orders::<T>(s);
    let front = out.take(k);
    assert forall|j: int| 0 <= j < front.len() implies below(#[trigger] front[j]) by {
        assert(front[j] == out[j]);
        assert(T::at_most(out[j], out[k]));
        assert(!alike(out[j]));
    }
    seqs::lemma_filter_keeps_all(front, below);
    assert(out =~= front + out.skip(k));
    Seq::filter_distributes_over_add(front, out.skip(k), below);
    lemma_sorted_count::<T>(s, below);
    k
}

/// The values in ascending order of rank, those of equal rank in the order in which they came.
pub fn sort_ranked<T: Ranked>(items: Vec<T>) -> (r: Vec<T>)
    ensures
        views(r@) == sorted::<T>(views(items@)),
{
    let ghost all = views(items@);
    let mut left: Vec<T> = items;
    let mut out: Vec<T> = Vec::new();
    proof {
        assert(all.skip(left.len() as int) =~= Seq::<T::V>::empty());
        assert(views(out@) =~= Seq::<T::V>::empty());
    }
    while left.len() > 0
        invariant
            views(left@) == all.take(left.len() as int),
            left.len() <= all.len(),
            views(out@) == sorted::<T>(all.skip(left.len() as int)),
        decreases left.len(),
    {
        let ghost before = left@;
        match left.pop() {
            None => {},
            Some(x) => {
                let mut p: usize = 0;
                while p < out.len() && !x.is_at_most(&out[p])
                    invariant
                        p <= out.len(),
                        forall|i: int|
                            0 <= i < p ==> !T::at_most(x@, #[trigger] views(out@)[i]),
                    decreases out.len() - p,
                {
                    p = p + 1;
                }
                proof {
                    let n = left.len() as int;
                    assert(x@ == views(before)[n]);
                    assert(all.skip(n).first() == x@);
                    assert(all.skip(n).drop_first() =~= all.skip(n + 1));
                    assert(views(left@) =~= all.take(n)) by {
                        assert forall|i: int| 0 <= i < n implies views(left@)[i] == all.take(
                            n,
                        )[i] by {
                            assert(views(before)[i] == all.take(n + 1)[i]);
                        }
                    }
                    lemma_placed_at::<T>(x@, views(out@), p as int);
                    assert(views(out@.insert(p as int, x)) =~= views(out@).insert(p as int, x@));
                }
                out.insert(p, x);
            },
        }
    }
    assert(all.skip(0) =~= all);
    out
}

} // verus!
