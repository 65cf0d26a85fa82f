use vstd::prelude::*;

verus! {

/// `s` with `x` placed after every element that may stay before it, assuming
/// `s` is in order; `stays_before(y, x)` says that `y` may come before `x`.
pub open spec fn insert_in_order<T>(s: Seq<T>, x: T, stays_before: spec_fn(T, T) -> bool) -> Seq<T>
    decreases s.len(),
{
    if s.len() == 0 {
        seq![x]
    } else if stays_before(s.last(), x) {
        s.push(x)
    } else {
        insert_in_order(s.drop_last(), x, stays_before).push(s.last())
    }
}

/// `s` sorted by insertion, element after element: a stable sort, where an
/// element goes after every earlier one that may stay before it.
pub open spec fn insertion_sorted<T>(s: Seq<T>, stays_before: spec_fn(T, T) -> bool) -> Seq<T>
    decreases s.len(),
{
    if s.len() == 0 {
        s
    } else {
        insert_in_order(insertion_sorted(s.drop_last(), stays_before), s.last(), stays_before)
    }
}

/// Every element of `s` may stay before every later one.
pub open spec fn in_order<T>(s: Seq<T>, stays_before: spec_fn(T, T) -> bool) -> bool {
    forall|i: int, j: int| 0 <= i <= j < s.len() ==> stays_before(s[i], s[j])
}

/// `stays_before` is a total preorder: any two elements can be put in some
/// order, and the order is transitive.
pub open spec fn total_preorder<T>(stays_before: spec_fn(T, T) -> bool) -> bool {
    &&& forall|a: T, b: T| #[trigger] stays_before(a, b) || stays_before(b, a)
    &&& forall|a: T, b: T, c: T| #[trigger] stays_before(a, b) && #[trigger] stays_before(b, c) ==> stays_before(a, c)
}

/// Where the element goes: inserting `x` at the position `p` after which
/// nothing may stay before it.
pub proof fn lemma_insert_at<T>(s: Seq<T>, x: T, stays_before: spec_fn(T, T) -> bool, p: int)
    requires
        0 <= p <= s.len(),
        p == 0 || stays_before(s[p - 1], x),
        forall|k: int| p <= k < s.len() ==> !stays_before(#[trigger] s[k], x),
    ensures
        insert_in_order(s, x, stays_before) == s.take(p).push(x) + s.skip(p),
    decreases s.len(),
{
    if s.len() == 0 {
        assert(s.take(p).push(x) + s.skip(p) =~= seq![x]);
    } else if stays_before(s.last(), x) {
        assert(p == s.len());
        assert(s.take(p).push(x) + s.skip(p) =~= s.push(x));
    } else {
        let t = s.drop_last();
        lemma_insert_at(t, x, stays_before, p);
        assert(s.take(p).push(x) + s.skip(p) =~= (t.take(p).push(x) + t.skip(p)).push(s.last()));
    }
}

proof fn lemma_insert_in_order_props<T>(s: Seq<T>, x: T, stays_before: spec_fn(T, T) -> bool)
    requires
        total_preorder(stays_before),
        in_order(s, stays_before),
    ensures
        in_order(insert_in_order(s, x, stays_before), stays_before),
        insert_in_order(s, x, stays_before).to_multiset() == s.to_multiset().insert(x),
        insert_in_order(s, x, stays_before).len() == s.len() + 1,
    decreases s.len(),
{
    broadcast use vstd::seq_lib::group_to_multiset_ensures;
    assert(stays_before(x, x) || stays_before(x, x));
    if s.len() == 0 {
        assert(seq![x] =~= Seq::<T>::empty().push(x));
    } else if stays_before(s.last(), x) {
        let r = s.push(x);
        assert forall|i: int, j: int| 0 <= i <= j < r.len() implies stays_before(r[i], r[j]) by {
            if j == s.len() && i < j {
                assert(r[i] == s[i]);
                assert(stays_before(s[i], s.last()));
                assert(stays_before(s[i], s.last()) && stays_before(s.last(), x));
            } else if j < s.len() {
                assert(r[i] == s[i] && r[j] == s[j]);
            }
        }
    } else {
        let t = s.drop_last();
        let last = s.last();
        assert(in_order(t, stays_before));
        lemma_insert_in_order_props(t, x, stays_before);
        let r = insert_in_order(t, x, stays_before);
        assert(s =~= t.push(last));
        assert(stays_before(last, x) || stays_before(x, last));
        assert(stays_before(last, last) || stays_before(last, last));
        assert forall|i: int| 0 <= i < r.len() implies stays_before(#[trigger] r[i], last) by {
            assert(r.contains(r[i]));
            assert(r.to_multiset().count(r[i]) > 0);
            if r[i] != x {
                assert(t.to_multiset().count(r[i]) > 0);
                assert(t.contains(r[i]));
                let k = choose|k: int| 0 <= k < t.len() && t[k] == r[i];
                assert(s[k] == t[k]);
            }
        }
        assert forall|i: int, j: int| 0 <= i <= j < r.push(last).len() implies
            stays_before(r.push(last)[i], r.push(last)[j]) by {
            if j < r.len() {
                assert(r.push(last)[i] == r[i] && r.push(last)[j] == r[j]);
            } else if i < r.len() {
                assert(r.push(last)[i] == r[i]);
            }
        }
        assert(insert_in_order(s, x, stays_before).to_multiset() =~= s.to_multiset().insert(x));
    }
}

/// Sorting by insertion under a total preorder puts the elements in order and
/// keeps exactly the elements given.
pub proof fn lemma_insertion_sorted<T>(s: Seq<T>, stays_before: spec_fn(T, T) -> bool)
    requires
        total_preorder(stays_before),
    ensures
        in_order(insertion_sorted(s, stays_before), stays_before),
        insertion_sorted(s, stays_before).to_multiset() == s.to_multiset(),
        insertion_sorted(s, stays_before).len() == s.len(),
    decreases s.len(),
{
    broadcast use vstd::seq_lib::group_to_multiset_ensures;
    if s.len() > 0 {
        lemma_insertion_sorted(s.drop_last(), stays_before);
        lemma_insert_in_order_props(insertion_sorted(s.drop_last(), stays_before), s.last(), stays_before);
        assert(s =~= s.drop_last().push(s.last()));
    }
}

} // verus!
