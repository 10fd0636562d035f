//! Searching and filtering sequences.

use vstd::prelude::*;

verus! {

/// The position of the first element of `s` that satisfies `p`.
pub open spec fn first_where<A>(s: Seq<A>, p: spec_fn(A) -> bool) -> Option<int>
    decreases s.len(),
{
    if s.len() == 0 {
        None
    } else if p(s.first()) {
        Some(0)
    } else {
        match first_where(s.drop_first(), p) {
            Some(i) => Some(i + 1),
            None => None,
        }
    }
}

/// `first_where` is found at `i` when `i` is the least position whose element satisfies `p`.
pub proof fn lemma_first_where_at<A>(s: Seq<A>, p: spec_fn(A) -> bool, i: int)
    requires
        0 <= i < s.len(),
        p(s[i]),
        forall|j: int| 0 <= j < i ==> !p(#[trigger] s[j]),
    ensures
        first_where(s, p) == Some(i),
    decreases s.len(),
{
    if i > 0 {
        assert(!p(s[0]));
        let rest = s.drop_first();
        assert forall|j: int| 0 <= j < i - 1 implies !p(#[trigger] rest[j]) by {
            assert(rest[j] == s[j + 1]);
        }
        lemma_first_where_at(rest, p, i - 1);
    }
}

/// `first_where` finds nothing when no element satisfies `p`.
pub proof fn lemma_first_where_none<A>(s: Seq<A>, p: spec_fn(A) -> bool)
    requires
        forall|j: int| 0 <= j < s.len() ==> !p(#[trigger] s[j]),
    ensures
        first_where(s, p) is None,
    decreases s.len(),
{
    if s.len() > 0 {
        let rest = s.drop_first();
        assert forall|j: int| 0 <= j < rest.len() implies !p(#[trigger] rest[j]) by {
            assert(rest[j] == s[j + 1]);
        }
        lemma_first_where_none(rest, p);
    }
}

/// What `first_where` finds satisfies `p`, and nothing before it does; it finds nothing
/// only where nothing satisfies `p`.
pub proof fn lemma_first_where<A>(s: Seq<A>, p: spec_fn(A) -> bool)
    ensures
        match first_where(s, p) {
            Some(i) => {
                &&& 0 <= i < s.len()
                &&& p(s[i])
                &&& forall|j: int| 0 <= j < i ==> !p(#[trigger] s[j])
            },
            None => forall|j: int| 0 <= j < s.len() ==> !p(#[trigger] s[j]),
        },
    decreases s.len(),
{
    if s.len() > 0 && !p(s.first()) {
        let rest = s.drop_first();
        lemma_first_where(rest, p);
        assert forall|j: int|
            0 < j < s.len() && (first_where(rest, p) matches Some(k) ==> j
                <= k) implies !p(#[trigger] s[j]) by {
            assert(s[j] == rest[j - 1]);
        }
    }
}

/// Appending an element extends a filtered sequence by that element exactly when it
/// passes the filter.
pub proof fn lemma_filter_push<A>(s: Seq<A>, p: spec_fn(A) -> bool, x: A)
    ensures
        s.push(x).filter(p) == if p(x) {
            s.filter(p).push(x)
        } else {
            s.filter(p)
        },
{
    reveal(Seq::filter);
    assert(s.push(x).drop_last() =~= s);
}

/// A filter that every element passes keeps all of them.
pub proof fn lemma_filter_keeps_all<A>(s: Seq<A>, p: spec_fn(A) -> bool)
    requires
        forall|j: int| 0 <= j < s.len() ==> p(#[trigger] s[j]),
    ensures
        s.filter(p) == s,
    decreases s.len(),
{
    reveal(Seq::filter);
    if s.len() > 0 {
        assert(p(s[s.len() - 1]));
        lemma_filter_keeps_all(s.drop_last(), p);
        assert(s =~= s.drop_last().push(s.last()));
    }
}

/// The first element that a filter keeps is the first that satisfies its condition.
pub proof fn lemma_filter_first<A>(s: Seq<A>, p: spec_fn(A) -> bool)
    requires
        first_where(s, p) is Some,
    ensures
        s.filter(p).len() > 0,
        s.filter(p).first() == s[first_where(s, p)->0],
    decreases s.len(),
{
    lemma_first_where(s, p);
    let i = first_where(s, p)->0;
    let init = s.drop_last();
    lemma_filter_push(init, p, s.last());
    assert(s =~= init.push(s.last()));
    if i < s.len() - 1 {
        assert forall|j: int| 0 <= j < i implies !p(#[trigger] init[j]) by {
            assert(init[j] == s[j]);
        }
        lemma_first_where_at(init, p, i);
        lemma_filter_first(init, p);
    } else {
        assert forall|j: int| 0 <= j < init.len() implies !p(#[trigger] init[j]) by {
            assert(init[j] == s[j]);
        }
        lemma_filter_drops_all(init, p);
    }
}

/// A filter that no element passes leaves nothing.
pub proof fn lemma_filter_drops_all<A>(s: Seq<A>, p: spec_fn(A) -> bool)
    requires
        forall|j: int| 0 <= j < s.len() ==> !p(#[trigger] s[j]),
    ensures
        s.filter(p) == Seq::<A>::empty(),
    decreases s.len(),
{
    reveal(Seq::filter);
    if s.len() > 0 {
        assert(!p(s[s.len() - 1]));
        lemma_filter_drops_all(s.drop_last(), p);
    } else {
        assert(s =~= Seq::<A>::empty());
    }
}

/// Two elements that satisfy a condition pass its filter as two.
pub proof fn lemma_filter_two<A>(s: Seq<A>, p: spec_fn(A) -> bool, i: int, j: int)
    requires
        0 <= i < j < s.len(),
        p(s[i]),
        p(s[j]),
    ensures
        s.filter(p).len() >= 2,
{
    let front = s.take(j);
    let back = s.skip(j);
    assert(s =~= front + back);
    Seq::filter_distributes_over_add(front, back, p);
    assert(p(front[i]) && p(back[0]));
    lemma_first_where(front, p);
    lemma_first_where(back, p);
    lemma_filter_first(front, p);
    lemma_filter_first(back, p);
}

/// Where no two elements satisfy a condition, its filter keeps at most one.
pub proof fn lemma_filter_at_most_one<A>(s: Seq<A>, p: spec_fn(A) -> bool)
    requires
        forall|i: int, j: int| 0 <= i < j < s.len() ==> !(p(#[trigger] s[i]) && p(#[trigger] s[j])),
    ensures
        s.filter(p).len() <= 1,
    decreases s.len(),
{
    if s.len() > 0 {
        let init = s.drop_last();
        assert(s =~= init.push(s.last()));
        lemma_filter_push(init, p, s.last());
        assert forall|i: int, j: int| 0 <= i < j < init.len() implies !(p(#[trigger] init[i]) && p(
            #[trigger] init[j],
        )) by {
            assert(init[i] == s[i] && init[j] == s[j]);
        }
        lemma_filter_at_most_one(init, p);
        if p(s.last()) {
            assert forall|i: int| 0 <= i < init.len() implies !p(#[trigger] init[i]) by {
                assert(init[i] == s[i]);
                assert(!(p(s[i]) && p(s[s.len() - 1])));
            }
            lemma_filter_drops_all(init, p);
        }
    } else {
        lemma_filter_drops_all(s, p);
    }
}

/// What `f` makes of the elements of `s`, without those of which it makes nothing.
pub open spec fn filter_map<A, B>(s: Seq<A>, f: spec_fn(A) -> Option<B>) -> Seq<B>
    decreases s.len(),
{
    if s.len() == 0 {
        Seq::empty()
    } else {
        let init = filter_map(s.drop_last(), f);
        match f(s.last()) {
            Some(b) => init.push(b),
            None => init,
        }
    }
}

/// Appending an element extends what `f` makes of a sequence by what it makes of the element.
pub proof fn lemma_filter_map_push<A, B>(s: Seq<A>, f: spec_fn(A) -> Option<B>, x: A)
    ensures
        filter_map(s.push(x), f) == match f(x) {
            Some(b) => filter_map(s, f).push(b),
            None => filter_map(s, f),
        },
{
    assert(s.push(x).drop_last() =~= s);
}

/// What `f` makes of a sequence are the values that it makes of its elements.
pub proof fn lemma_filter_map_contains<A, B>(s: Seq<A>, f: spec_fn(A) -> Option<B>, b: B)
    ensures
        filter_map(s, f).contains(b) <==> exists|i: int|
            0 <= i < s.len() && f(#[trigger] s[i]) == Some(b),
    decreases s.len(),
{
    if s.len() > 0 {
        let init = s.drop_last();
        lemma_filter_map_contains(init, f, b);
        let before = filter_map(init, f);
        if filter_map(s, f).contains(b) {
            let k = choose|k: int| 0 <= k < filter_map(s, f).len() && filter_map(s, f)[k] == b;
            if k < before.len() {
                assert(before[k] == b);
                let i = choose|i: int| 0 <= i < init.len() && f(#[trigger] init[i]) == Some(b);
                assert(f(s[i]) == Some(b));
            } else {
                assert(f(s[s.len() - 1]) == Some(b));
            }
        }
        if exists|i: int| 0 <= i < s.len() && f(#[trigger] s[i]) == Some(b) {
            let i = choose|i: int| 0 <= i < s.len() && f(#[trigger] s[i]) == Some(b);
            if i < init.len() {
                assert(f(init[i]) == Some(b));
                let k = choose|k: int| 0 <= k < before.len() && before[k] == b;
                assert(filter_map(s, f)[k] == b);
            } else {
                assert(filter_map(s, f)[before.len() as int] == b);
            }
        }
    }
}

/// What is left after filtering was there before.
pub proof fn lemma_filter_source<A>(s: Seq<A>, p: spec_fn(A) -> bool, k: int)
    requires
        0 <= k < s.filter(p).len(),
    ensures
        s.contains(s.filter(p)[k]),
    decreases s.len(),
{
    if s.len() > 0 {
        let init = s.drop_last();
        assert(s =~= init.push(s.last()));
        lemma_filter_push(init, p, s.last());
        if k < init.filter(p).len() {
            lemma_filter_source(init, p, k);
            let j = choose|j: int| 0 <= j < init.len() && init[j] == init.filter(p)[k];
            assert(s[j] == s.filter(p)[k]);
        } else {
            assert(s[s.len() - 1] == s.filter(p)[k]);
        }
    } else {
        lemma_filter_drops_all(s, p);
    }
}

/// What `f` makes of a sequence is what it makes of its parts, in their order: of an element
/// its value, where it has one, and else nothing.
pub proof fn law_filter_map_keeps_the_order<A, B>(
    s: Seq<A>,
    x: A,
    t: Seq<A>,
    f: spec_fn(A) -> Option<B>,
)
    ensures
        filter_map(s + t, f) == filter_map(s, f) + filter_map(t, f),
        filter_map(seq![x], f) == match f(x) {
            Some(b) => seq![b],
            None => Seq::<B>::empty(),
        },
        filter_map(Seq::<A>::empty(), f) == Seq::<B>::empty(),
    decreases t.len(),
{
    assert(seq![x] =~= Seq::<A>::empty().push(x));
    lemma_filter_map_push(Seq::<A>::empty(), f, x);
    if t.len() == 0 {
        assert(s + t =~= s);
        assert(filter_map(s, f) + filter_map(t, f) =~= filter_map(s, f));
    } else {
        law_filter_map_keeps_the_order(s, x, t.drop_last(), f);
        assert((s + t).drop_last() =~= s + t.drop_last());
        assert((s + t).last() == t.last());
        assert(filter_map(s + t, f) =~= filter_map(s, f) + filter_map(t, f));
    }
}

/// Filtering by a condition first changes nothing of filtering by a stronger one.
pub proof fn lemma_filter_twice<A>(s: Seq<A>, p: spec_fn(A) -> bool, q: spec_fn(A) -> bool)
    requires
        forall|x: A| #[trigger] q(x) ==> p(x),
    ensures
        s.filter(p).filter(q) == s.filter(q),
    decreases s.len(),
{
    if s.len() == 0 {
        lemma_filter_drops_all(s, p);
        lemma_filter_drops_all(s, q);
        lemma_filter_drops_all(s.filter(p), q);
        assert(s.filter(p).filter(q) =~= s.filter(q));
    } else {
        let init = s.drop_last();
        assert(s =~= init.push(s.last()));
        lemma_filter_push(init, p, s.last());
        lemma_filter_push(init, q, s.last());
        lemma_filter_push(init.filter(p), q, s.last());
        lemma_filter_twice(init, p, q);
    }
}

} // verus!
