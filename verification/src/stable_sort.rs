//! Stable sorting by an integer key.
use vstd::prelude::*;

verus! {

/// A value with an integer sort key.
pub trait SortKey {
    spec fn sort_key(&self) -> int;

    fn key(&self) -> (r: u128)
        ensures
            r == self.sort_key(),
    ;
}

/// `s` (sorted) with `x` inserted after every element whose key is at most
/// `x`'s.
pub open spec fn insert_by_key<T: SortKey>(s: Seq<T>, x: T) -> Seq<T>
    decreases s.len(),
{
    if s.len() == 0 || s.last().sort_key() <= x.sort_key() {
        s.push(x)
    } else {
        insert_by_key(s.drop_last(), x).push(s.last())
    }
}

/// The stable sort of `s` by key: equal keys keep their input order.
pub open spec fn stable_sort_by_key<T: SortKey>(s: Seq<T>) -> Seq<T>
    decreases s.len(),
{
    if s.len() == 0 {
        s
    } else {
        insert_by_key(stable_sort_by_key(s.drop_last()), s.last())
    }
}

/// Keys never decrease along `s`.
pub open spec fn sorted_by_key<T: SortKey>(s: Seq<T>) -> bool {
    forall|i: int, j: int| 0 <= i < j < s.len() ==> s[i].sort_key() <= s[j].sort_key()
}

/// Insertion keeps a sorted sequence sorted.
proof fn lemma_insert_sorted<T: SortKey>(s: Seq<T>, x: T)
    requires
        sorted_by_key(s),
    ensures
        sorted_by_key(insert_by_key(s, x)),
        insert_by_key(s, x).to_multiset() == s.to_multiset().insert(x),
        insert_by_key(s, x).len() == s.len() + 1,
    decreases s.len(),
{
    broadcast use vstd::seq_lib::group_to_multiset_ensures;

    if s.len() == 0 || s.last().sort_key() <= x.sort_key() {
    } else {
        let t = s.drop_last();
        assert(sorted_by_key(t));
        lemma_insert_sorted(t, x);
        let u = insert_by_key(t, x);
        assert forall|i: int| 0 <= i < u.len() implies #[trigger] u[i].sort_key() <= s.last().sort_key() by {
            assert(u.to_multiset().count(u[i]) > 0);
            assert(t.to_multiset().insert(x).count(u[i]) > 0);
            if u[i] != x {
                assert(t.to_multiset().count(u[i]) > 0);
                assert(t.contains(u[i]));
                let k = choose|k: int| 0 <= k < t.len() && t[k] == u[i];
                assert(s[k] == t[k]);
            }
        }
        assert(s =~= t.push(s.last()));
    }
}

/// The stable sort is sorted and a permutation of its input.
pub proof fn lemma_stable_sort<T: SortKey>(s: Seq<T>)
    ensures
        sorted_by_key(stable_sort_by_key(s)),
        stable_sort_by_key(s).to_multiset() == s.to_multiset(),
        stable_sort_by_key(s).len() == s.len(),
    decreases s.len(),
{
    broadcast use vstd::seq_lib::group_to_multiset_ensures;

    if s.len() > 0 {
        lemma_stable_sort(s.drop_last());
        lemma_insert_sorted(stable_sort_by_key(s.drop_last()), s.last());
        assert(s =~= s.drop_last().push(s.last()));
    }
}

/// Whether an element has key `k`.
pub open spec fn key_is<T: SortKey>(k: int) -> spec_fn(T) -> bool {
    |x: T| x.sort_key() == k
}

/// The elements of `s` with key `k`, in order.
pub open spec fn with_key<T: SortKey>(s: Seq<T>, k: int) -> Seq<T> {
    s.filter(key_is::<T>(k))
}

/// Inserting `x` adds it behind the elements of its own key.
proof fn lemma_insert_with_key<T: SortKey>(t: Seq<T>, x: T, k: int)
    ensures
        with_key(insert_by_key(t, x), k) == if x.sort_key() == k {
            with_key(t, k).push(x)
        } else {
            with_key(t, k)
        },
    decreases t.len(),
{
    let p = key_is::<T>(k);
    if t.len() == 0 || t.last().sort_key() <= x.sort_key() {
        t.lemma_filter_push(x, p);
    } else {
        let u = t.drop_last();
        lemma_insert_with_key(u, x, k);
        insert_by_key(u, x).lemma_filter_push(t.last(), p);
        u.lemma_filter_push(t.last(), p);
        assert(u.push(t.last()) =~= t);
        if x.sort_key() == k {
            assert(t.last().sort_key() != k);
        }
    }
}

/// The stable sort keeps the order of equal keys: the elements with any
/// one key come out in the order they went in.
pub proof fn lemma_stable_sort_keeps_order<T: SortKey>(s: Seq<T>, k: int)
    ensures
        with_key(stable_sort_by_key(s), k) == with_key(s, k),
    decreases s.len(),
{
    if s.len() > 0 {
        let t = s.drop_last();
        lemma_stable_sort_keeps_order(t, k);
        lemma_insert_with_key(stable_sort_by_key(t), s.last(), k);
        t.lemma_filter_push(s.last(), key_is::<T>(k));
        assert(t.push(s.last()) =~= s);
    }
}

/// `slice::sort_by_key` with the element's key. The standard library
/// documents it as a stable sort by that key: the elements in increasing key
/// order, equal keys in their input order, which is `stable_sort_by_key`.
#[verifier::external_body]
pub(crate) fn sort_stable<T: SortKey>(v: Vec<T>) -> (r: Vec<T>)
    ensures
        r@ == stable_sort_by_key(v@),
{
    let mut v = v;
    v.sort_by_key(|x: &T| x.key());
    v
}

} // verus!
