//! General facts about sequences used by the proofs.

use vstd::prelude::*;

verus! {

/// Filtering a sequence extended by one element.
pub proof fn lemma_filter_push<A>(s: Seq<A>, pred: spec_fn(A) -> bool, e: A)
    ensures
        pred(e) ==> s.push(e).filter(pred) == s.filter(pred).push(e),
        !pred(e) ==> s.push(e).filter(pred) == s.filter(pred),
{
    reveal(Seq::filter);
    assert(s.push(e).drop_last() =~= s);
}

/// Filtering keeps a sequence free of repeats.
pub proof fn lemma_filter_no_duplicates<A>(s: Seq<A>, pred: spec_fn(A) -> bool)
    requires
        s.no_duplicates(),
    ensures
        s.filter(pred).no_duplicates(),
    decreases s.len(),
{
    reveal(Seq::filter);
    if s.len() > 0 {
        let init = s.drop_last();
        assert(init.no_duplicates());
        lemma_filter_no_duplicates(init, pred);
        lemma_filter_subset(init, pred);
        if pred(s.last()) {
            assert(!init.contains(s.last()));
            assert(!init.filter(pred).contains(s.last()));
            assert(s.filter(pred) == init.filter(pred).push(s.last()));
        } else {
            assert(s.filter(pred) == init.filter(pred));
        }
    }
}

/// Every element of a filtered sequence is an element of the sequence it was drawn from.
pub proof fn lemma_filter_subset<A>(s: Seq<A>, pred: spec_fn(A) -> bool)
    ensures
        forall|e: A| #[trigger] s.filter(pred).contains(e) ==> s.contains(e) && pred(e),
    decreases s.len(),
{
    reveal(Seq::filter);
    if s.len() > 0 {
        let init = s.drop_last();
        lemma_filter_subset(init, pred);
        assert forall|e: A| #[trigger] s.filter(pred).contains(e) implies s.contains(e) && pred(e) by {
            if pred(s.last()) {
                assert(s.filter(pred) == init.filter(pred).push(s.last()));
                if e != s.last() {
                    let k = choose|k: int| 0 <= k < s.filter(pred).len() && s.filter(pred)[k] == e;
                    assert(init.filter(pred)[k] == e);
                    assert(init.filter(pred).contains(e));
                    let m = choose|m: int| 0 <= m < init.len() && init[m] == e;
                    assert(s[m] == e);
                } else {
                    assert(s[s.len() - 1] == e);
                }
            } else {
                assert(s.filter(pred) == init.filter(pred));
                let m = choose|m: int| 0 <= m < init.len() && init[m] == e;
                assert(s[m] == e);
            }
        }
    }
}


/// Appending an element absent from a repeat-free sequence keeps it repeat-free.
pub proof fn lemma_push_no_duplicates<A>(s: Seq<A>, e: A)
    requires
        s.no_duplicates(),
        !s.contains(e),
    ensures
        s.push(e).no_duplicates(),
{
    assert forall|a: int, b: int| 0 <= a < s.push(e).len() && 0 <= b < s.push(e).len() && a != b
        implies s.push(e)[a] != s.push(e)[b] by {
        if a == s.len() as int {
            assert(s[b] == s.push(e)[b]);
        } else if b == s.len() as int {
            assert(s[a] == s.push(e)[a]);
        }
    }
}


/// Removing the only occurrence of an element is filtering it out.
pub proof fn lemma_remove_unique_is_filter<A>(s: Seq<A>, i: int)
    requires
        s.no_duplicates(),
        0 <= i < s.len(),
    ensures
        s.remove(i) == s.filter(|x: A| x != s[i]),
        s.remove(i).no_duplicates(),
    decreases s.len(),
{
    let x = s[i];
    let pred = |y: A| y != x;
    reveal(Seq::filter);
    if i == s.len() - 1 {
        assert(s.remove(i) =~= s.drop_last());
        lemma_filter_absent(s.drop_last(), x);
        assert(!s.drop_last().contains(x)) by {
            if s.drop_last().contains(x) {
                let k = choose|k: int| 0 <= k < s.drop_last().len() && s.drop_last()[k] == x;
                assert(s[k] == s[i]);
            }
        }
        assert(s.filter(pred) == s.drop_last().filter(pred));
    } else {
        let init = s.drop_last();
        assert(init.no_duplicates());
        assert(init[i] == x);
        lemma_remove_unique_is_filter(init, i);
        assert(s.last() != x);
        assert(s.filter(pred) == init.filter(pred).push(s.last()));
        assert(s.remove(i) =~= init.remove(i).push(s.last()));
    }
    assert forall|a: int, b: int| 0 <= a < s.remove(i).len() && 0 <= b < s.remove(i).len() && a != b
        implies s.remove(i)[a] != s.remove(i)[b] by {
        let a1 = if a < i { a } else { a + 1 };
        let b1 = if b < i { b } else { b + 1 };
        assert(s.remove(i)[a] == s[a1] && s.remove(i)[b] == s[b1]);
    }
}

/// Filtering out an absent element changes nothing.
pub proof fn lemma_filter_absent<A>(s: Seq<A>, x: A)
    requires
        !s.contains(x),
    ensures
        s.filter(|y: A| y != x) == s,
    decreases s.len(),
{
    reveal(Seq::filter);
    if s.len() > 0 {
        let init = s.drop_last();
        assert(!init.contains(x)) by {
            if init.contains(x) {
                let k = choose|k: int| 0 <= k < init.len() && init[k] == x;
                assert(s[k] == x);
            }
        }
        lemma_filter_absent(init, x);
        assert(s.last() != x) by {
            assert(s[s.len() - 1] == s.last());
        }
        assert(s.filter(|y: A| y != x) == init.filter(|y: A| y != x).push(s.last()));
        assert(init.push(s.last()) =~= s);
    } else {
        assert(s.filter(|y: A| y != x) =~= s);
    }
}


/// Filtering twice is filtering once by both conditions.
pub proof fn lemma_filter_filter<A>(s: Seq<A>, p: spec_fn(A) -> bool, q: spec_fn(A) -> bool)
    ensures
        s.filter(p).filter(q) == s.filter(|x: A| p(x) && q(x)),
    decreases s.len(),
{
    reveal(Seq::filter);
    let pq = |x: A| p(x) && q(x);
    if s.len() > 0 {
        let init = s.drop_last();
        lemma_filter_filter(init, p, q);
        let e = s.last();
        lemma_filter_push(init, p, e);
        lemma_filter_push(init.filter(p), q, e);
        lemma_filter_push(init, pq, e);
        assert(init.push(e) =~= s);
    } else {
        assert(s.filter(p) =~= Seq::<A>::empty());
        assert(s.filter(p).filter(q) =~= Seq::<A>::empty());
        assert(s.filter(pq) =~= Seq::<A>::empty());
    }
}

/// Filtering by a condition that holds everywhere keeps the sequence.
pub proof fn lemma_filter_all<A>(s: Seq<A>, p: spec_fn(A) -> bool)
    requires
        forall|x: A| #[trigger] p(x),
    ensures
        s.filter(p) == s,
    decreases s.len(),
{
    reveal(Seq::filter);
    if s.len() > 0 {
        lemma_filter_all(s.drop_last(), p);
        assert(s.drop_last().push(s.last()) =~= s);
    } else {
        assert(s.filter(p) =~= s);
    }
}

/// The elements of `s` with `a` appended are those of `s` and `a`.
pub proof fn lemma_push_to_set<A>(s: Seq<A>, a: A)
    ensures
        s.push(a).to_set() == s.to_set().insert(a),
{
    assert forall|e: A| #[trigger] s.push(a).to_set().contains(e) == s.to_set().insert(a).contains(e) by {
        if s.push(a).contains(e) {
            let k = choose|k: int| 0 <= k < s.push(a).len() && s.push(a)[k] == e;
            if k < s.len() {
                assert(s[k] == e);
            }
        }
        if s.contains(e) {
            let k = choose|k: int| 0 <= k < s.len() && s[k] == e;
            assert(s.push(a)[k] == e);
        }
        if e == a {
            assert(s.push(a)[s.len() as int] == a);
        }
    }
    assert(s.push(a).to_set() =~= s.to_set().insert(a));
}

/// `s` with `x` placed right after the last of its elements that `x` does
/// not go ahead of (first when it goes ahead of them all).
pub open spec fn place_by<T>(s: Seq<T>, x: T, ahead: spec_fn(T, T) -> bool) -> Seq<T>
    decreases s.len(),
{
    if s.len() == 0 {
        seq![x]
    } else if ahead(x, s.last()) {
        place_by(s.drop_last(), x, ahead).push(s.last())
    } else {
        s.push(x)
    }
}

/// `s` sorted so that each element goes after those it does not go ahead
/// of, elements that tie keeping their order in `s`.
pub open spec fn ordered_by<T>(s: Seq<T>, ahead: spec_fn(T, T) -> bool) -> Seq<T>
    decreases s.len(),
{
    if s.len() == 0 {
        s
    } else {
        place_by(ordered_by(s.drop_last(), ahead), s.last(), ahead)
    }
}

/// Whether no element of `s` goes ahead of one before it.
pub open spec fn in_order_by<T>(s: Seq<T>, ahead: spec_fn(T, T) -> bool) -> bool {
    forall|i: int, j: int| 0 <= i < j < s.len() ==> !ahead(#[trigger] s[j], #[trigger] s[i])
}

/// Whether `ahead` orders: no two elements go ahead of each other, and not
/// going ahead chains.
pub open spec fn orders<T>(ahead: spec_fn(T, T) -> bool) -> bool {
    &&& forall|a: T, b: T| #[trigger] ahead(a, b) ==> !ahead(b, a)
    &&& forall|a: T, b: T, c: T| !#[trigger] ahead(a, b) && !#[trigger] ahead(b, c) ==> !ahead(a, c)
}

/// Placing `x` is inserting it at `pos` when it goes ahead of every element
/// from `pos` on and not of the one before.
pub proof fn lemma_place_by_at<T>(s: Seq<T>, x: T, ahead: spec_fn(T, T) -> bool, pos: int)
    requires
        0 <= pos <= s.len(),
        forall|j: int| pos <= j < s.len() ==> ahead(x, #[trigger] s[j]),
        pos > 0 ==> !ahead(x, s[pos - 1]),
    ensures
        place_by(s, x, ahead) == s.insert(pos, x),
    decreases s.len(),
{
    if s.len() == 0 {
        assert(s.insert(pos, x) =~= seq![x]);
    } else if pos == s.len() {
        assert(s.insert(pos, x) =~= s.push(x));
    } else {
        let t = s.drop_last();
        assert(ahead(x, s[s.len() - 1]));
        assert forall|j: int| pos <= j < t.len() implies ahead(x, #[trigger] t[j]) by {
            assert(t[j] == s[j]);
        }
        if pos > 0 {
            assert(t[pos - 1] == s[pos - 1]);
        }
        lemma_place_by_at(t, x, ahead, pos);
        assert(t.insert(pos, x).push(s.last()) =~= s.insert(pos, x));
    }
}

/// Where placing `x` in `s` puts it.
pub proof fn lemma_place_by_pos<T>(s: Seq<T>, x: T, ahead: spec_fn(T, T) -> bool) -> (p: int)
    ensures
        0 <= p <= s.len(),
        forall|j: int| p <= j < s.len() ==> ahead(x, #[trigger] s[j]),
        p > 0 ==> !ahead(x, s[p - 1]),
    decreases s.len(),
{
    if s.len() == 0 {
        0
    } else if ahead(x, s.last()) {
        let t = s.drop_last();
        let p = lemma_place_by_pos(t, x, ahead);
        assert forall|j: int| p <= j < s.len() implies ahead(x, #[trigger] s[j]) by {
            if j < t.len() {
                assert(t[j] == s[j]);
            }
        }
        if p > 0 {
            assert(t[p - 1] == s[p - 1]);
        }
        p
    } else {
        s.len() as int
    }
}

/// Placing an element in a list in order keeps it in order and adds just
/// that element.
pub proof fn lemma_place_by_in_order<T>(s: Seq<T>, x: T, ahead: spec_fn(T, T) -> bool)
    requires
        orders(ahead),
        in_order_by(s, ahead),
    ensures
        in_order_by(place_by(s, x, ahead), ahead),
        place_by(s, x, ahead).to_multiset() == s.to_multiset().insert(x),
{
    let p = lemma_place_by_pos(s, x, ahead);
    lemma_place_by_at(s, x, ahead, p);
    let r = place_by(s, x, ahead);
    vstd::seq_lib::to_multiset_insert(s, p, x);
    assert forall|i: int, j: int| 0 <= i < j < r.len() implies !ahead(#[trigger] r[j], #[trigger] r[i]) by {
        if j < p {
            assert(r[i] == s[i] && r[j] == s[j]);
        } else if j == p {
            assert(r[i] == s[i] && r[j] == x);
            if i < p - 1 {
                assert(!ahead(x, s[p - 1]) && !ahead(s[p - 1], s[i]));
            }
        } else if i == p {
            assert(r[i] == x && r[j] == s[j - 1]);
            assert(ahead(x, s[j - 1]));
        } else if i < p {
            assert(r[i] == s[i] && r[j] == s[j - 1]);
        } else {
            assert(r[i] == s[i - 1] && r[j] == s[j - 1]);
        }
    }
}

/// Ordering keeps the elements it is given, each as often, and, for an
/// order, leaves no element behind one it goes ahead of.
pub proof fn lemma_ordered_by_in_order<T>(s: Seq<T>, ahead: spec_fn(T, T) -> bool)
    requires
        orders(ahead),
    ensures
        ordered_by(s, ahead).to_multiset() == s.to_multiset(),
        in_order_by(ordered_by(s, ahead), ahead),
    decreases s.len(),
{
    broadcast use vstd::seq_lib::group_to_multiset_ensures;
    if s.len() > 0 {
        lemma_ordered_by_in_order(s.drop_last(), ahead);
        lemma_place_by_in_order(ordered_by(s.drop_last(), ahead), s.last(), ahead);
        assert(s =~= s.drop_last().push(s.last()));
    }
}

/// Ordering keeps the length.
pub proof fn lemma_ordered_by_len<T>(s: Seq<T>, ahead: spec_fn(T, T) -> bool)
    ensures
        ordered_by(s, ahead).len() == s.len(),
    decreases s.len(),
{
    if s.len() > 0 {
        lemma_ordered_by_len(s.drop_last(), ahead);
        let p = lemma_place_by_pos(ordered_by(s.drop_last(), ahead), s.last(), ahead);
        lemma_place_by_at(ordered_by(s.drop_last(), ahead), s.last(), ahead, p);
    }
}

} // verus!
