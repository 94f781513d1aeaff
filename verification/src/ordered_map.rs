//! Ordered views of price-keyed maps.
use std::collections::BTreeMap;
use vstd::prelude::*;
use vstd::std_specs::btree::{increasing_seq, spec_btree_map_iter};
use vstd::std_specs::iter::IteratorSpec;
use vstd::std_specs::cmp::OrdSpec;

verus! {

broadcast use vstd::std_specs::btree::group_btree_axioms, vstd::laws_cmp::group_laws_cmp;

/// `s` lists every entry of `m` exactly once, in strictly increasing key order.
pub open spec fn is_ascending_entries(m: Map<u64, u64>, s: Seq<(u64, u64)>) -> bool {
    &&& forall|i: int, j: int| 0 <= i < j < s.len() ==> s[i].0 < s[j].0
    &&& forall|i: int| 0 <= i < s.len() ==> #[trigger] m.contains_key(s[i].0) && m[s[i].0] == s[i].1
    &&& forall|k: u64| #[trigger] m.contains_key(k) ==> exists|i: int| 0 <= i < s.len() && s[i].0 == k
}

/// `r` holds the `n` largest keys of `m` (all of them when fewer), largest first,
/// each with its value.
pub open spec fn is_top_desc(m: Map<u64, u64>, r: Seq<(u64, u64)>, n: nat) -> bool {
    &&& r.len() <= n
    &&& forall|i: int, j: int| 0 <= i < j < r.len() ==> r[i].0 > r[j].0
    &&& forall|i: int| 0 <= i < r.len() ==> #[trigger] m.contains_key(r[i].0) && m[r[i].0] == r[i].1
    &&& forall|k: u64|
        #[trigger] m.contains_key(k) ==> (exists|i: int| 0 <= i < r.len() && r[i].0 == k) || (r.len()
            == n && (n == 0 || k < r[n - 1].0))
}

/// `r` holds the `n` smallest keys of `m` (all of them when fewer), smallest
/// first, each with its value.
pub open spec fn is_top_asc(m: Map<u64, u64>, r: Seq<(u64, u64)>, n: nat) -> bool {
    &&& r.len() <= n
    &&& forall|i: int, j: int| 0 <= i < j < r.len() ==> r[i].0 < r[j].0
    &&& forall|i: int| 0 <= i < r.len() ==> #[trigger] m.contains_key(r[i].0) && m[r[i].0] == r[i].1
    &&& forall|k: u64|
        #[trigger] m.contains_key(k) ==> (exists|i: int| 0 <= i < r.len() && r[i].0 == k) || (r.len()
            == n && (n == 0 || k > r[n - 1].0))
}

/// Sum of the values of the first `n` entries of `r`.
pub open spec fn sum_values(r: Seq<(u64, u64)>) -> nat
    decreases r.len(),
{
    if r.len() == 0 {
        0
    } else {
        sum_values(r.drop_last()) + r.last().1 as nat
    }
}

/// `BTreeMap::last_key_value`: the entry with the largest key.
///
/// Claims what the standard library documents: `None` exactly for an empty
/// map, and otherwise a key of the map that no other key exceeds.
#[verifier::external_body]
pub(crate) fn max_key<V>(m: &BTreeMap<u64, V>) -> (r: Option<u64>)
    ensures
        r is None <==> m@.dom().is_empty(),
        r matches Some(k) ==> m@.contains_key(k) && forall|j: u64| #[trigger]
            m@.contains_key(j) ==> j <= k,
{
    m.last_key_value().map(|(k, _)| *k)
}

/// `BTreeMap::first_key_value`: the entry with the smallest key.
///
/// Claims what the standard library documents: `None` exactly for an empty
/// map, and otherwise a key of the map that no other key undercuts.
#[verifier::external_body]
pub(crate) fn min_key<V>(m: &BTreeMap<u64, V>) -> (r: Option<u64>)
    ensures
        r is None <==> m@.dom().is_empty(),
        r matches Some(k) ==> m@.contains_key(k) && forall|j: u64| #[trigger]
            m@.contains_key(j) ==> k <= j,
{
    m.first_key_value().map(|(k, _)| *k)
}

/// All entries of `m` in increasing key order.
pub(crate) fn ascending_entries(m: &BTreeMap<u64, u64>) -> (r: Vec<(u64, u64)>)
    ensures
        is_ascending_entries(m@, r@),
{
    let ghost sq = spec_btree_map_iter(m).remaining();
    let mut out: Vec<(u64, u64)> = Vec::new();
    for kv in it: m.iter()
        invariant
            it.seq() == sq,
            out@.len() == it.index(),
            forall|i: int| 0 <= i < out@.len() ==> out@[i] == (*sq[i].0, *sq[i].1),
    {
        out.push((*kv.0, *kv.1));
    }
    proof {
        let keys = sq.map_values(|kv: (&u64, &u64)| *kv.0);
        assert(vstd::laws_cmp::obeys_cmp::<u64>());
        assert(increasing_seq(keys));
        assert forall|i: int, j: int| 0 <= i < j < out@.len() implies out@[i].0 < out@[j].0 by {
            assert(keys[i] == out@[i].0);
            assert(keys[j] == out@[j].0);
            assert(keys[i].cmp_spec(&keys[j]) is Less);
        }
        assert forall|i: int| 0 <= i < out@.len() implies #[trigger] m@.contains_key(out@[i].0)
            && m@[out@[i].0] == out@[i].1 by {
            assert(m@.contains_key(*sq[i].0));
        }
        assert forall|k: u64| #[trigger] m@.contains_key(k) implies exists|i: int|
            0 <= i < out@.len() && out@[i].0 == k by {
            assert(sq.contains((&k, &m@[k])));
            let i = choose|i: int| 0 <= i < sq.len() && sq[i] == (&k, &m@[k]);
            assert(out@[i].0 == k);
        }
    }
    out
}

/// The `n` largest-keyed entries of `m`, largest first.
pub(crate) fn top_desc(m: &BTreeMap<u64, u64>, n: usize) -> (r: Vec<(u64, u64)>)
    ensures
        is_top_desc(m@, r@, n as nat),
{
    let all = ascending_entries(m);
    let len = all.len();
    let mut out: Vec<(u64, u64)> = Vec::new();
    let mut i: usize = 0;
    while i < n && i < len
        invariant
            is_ascending_entries(m@, all@),
            len == all@.len(),
            i <= len,
            i <= n,
            out@.len() == i,
            forall|j: int| 0 <= j < i ==> out@[j] == all@[len - 1 - j],
        decreases len - i,
    {
        out.push(all[len - 1 - i]);
        i = i + 1;
    }
    proof {
        assert forall|k: u64| #[trigger] m@.contains_key(k) implies (exists|j: int|
            0 <= j < out@.len() && out@[j].0 == k) || (out@.len() == n && (n == 0 || k < out@[n
            - 1].0)) by {
            let p = choose|p: int| 0 <= p < all@.len() && all@[p].0 == k;
            if len - 1 - p < i {
                assert(out@[len - 1 - p].0 == k);
            } else {
                assert(i == n);
                if n > 0 {
                    assert(out@[n - 1] == all@[len - 1 - (n - 1)]);
                    assert(all@[p].0 < all@[len - n].0);
                }
            }
        }
        assert forall|a: int, b: int| 0 <= a < b < out@.len() implies out@[a].0 > out@[b].0 by {
            assert(out@[a] == all@[len - 1 - a]);
            assert(out@[b] == all@[len - 1 - b]);
        }
        assert forall|a: int| 0 <= a < out@.len() implies #[trigger] m@.contains_key(out@[a].0)
            && m@[out@[a].0] == out@[a].1 by {
            assert(out@[a] == all@[len - 1 - a]);
        }
    }
    out
}

/// The `n` smallest-keyed entries of `m`, smallest first.
pub(crate) fn top_asc(m: &BTreeMap<u64, u64>, n: usize) -> (r: Vec<(u64, u64)>)
    ensures
        is_top_asc(m@, r@, n as nat),
{
    let all = ascending_entries(m);
    let len = all.len();
    let mut out: Vec<(u64, u64)> = Vec::new();
    let mut i: usize = 0;
    while i < n && i < len
        invariant
            is_ascending_entries(m@, all@),
            len == all@.len(),
            i <= len,
            i <= n,
            out@.len() == i,
            forall|j: int| 0 <= j < i ==> out@[j] == all@[j],
        decreases len - i,
    {
        out.push(all[i]);
        i = i + 1;
    }
    proof {
        assert forall|k: u64| #[trigger] m@.contains_key(k) implies (exists|j: int|
            0 <= j < out@.len() && out@[j].0 == k) || (out@.len() == n && (n == 0 || k > out@[n
            - 1].0)) by {
            let p = choose|p: int| 0 <= p < all@.len() && all@[p].0 == k;
            if p < i {
                assert(out@[p].0 == k);
            } else {
                assert(i == n);
                if n > 0 {
                    assert(out@[n - 1] == all@[n - 1]);
                    assert(all@[p].0 > all@[n - 1].0);
                }
            }
        }
    }
    out
}

/// Sum of the values of a list of entries.
pub(crate) fn sum_entry_values(v: &Vec<(u64, u64)>) -> (r: u64)
    requires
        sum_values(v@) <= u64::MAX,
    ensures
        r == sum_values(v@),
{
    let mut total: u64 = 0;
    let mut i: usize = 0;
    while i < v.len()
        invariant
            i <= v@.len(),
            total == sum_values(v@.take(i as int)),
            sum_values(v@) <= u64::MAX,
        decreases v@.len() - i,
    {
        proof {
            assert(v@.take(i + 1).drop_last() =~= v@.take(i as int));
            lemma_sum_values_prefix(v@, i + 1);
        }
        total = total + v[i].1;
        i = i + 1;
    }
    proof {
        assert(v@.take(v@.len() as int) =~= v@);
    }
    total
}

/// The sum over a prefix never exceeds the sum over the whole list.
pub proof fn lemma_sum_values_prefix(r: Seq<(u64, u64)>, k: int)
    requires
        0 <= k <= r.len(),
    ensures
        sum_values(r.take(k)) <= sum_values(r),
    decreases r.len() - k,
{
    if k < r.len() {
        lemma_sum_values_prefix(r, k + 1);
        assert(r.take(k + 1).drop_last() =~= r.take(k));
    } else {
        assert(r.take(k) =~= r);
    }
}

/// Lexicographic order on pair keys.
pub open spec fn key_lt(a: (u64, u64), b: (u64, u64)) -> bool {
    a.0 < b.0 || (a.0 == b.0 && a.1 < b.1)
}

/// `s` lists every key of `m` exactly once, in increasing lexicographic order.
pub open spec fn is_sorted_keys<V>(m: Map<(u64, u64), V>, s: Seq<(u64, u64)>) -> bool {
    &&& forall|i: int, j: int| 0 <= i < j < s.len() ==> key_lt(s[i], s[j])
    &&& forall|i: int| 0 <= i < s.len() ==> #[trigger] m.contains_key(s[i])
    &&& forall|k: (u64, u64)| #[trigger] m.contains_key(k) ==> s.contains(k)
}

/// All keys of a pair-keyed map in increasing order.
pub(crate) fn pair_map_keys<V>(m: &BTreeMap<(u64, u64), V>) -> (r: Vec<(u64, u64)>)
    ensures
        is_sorted_keys(m@, r@),
{
    proof {
        assert(vstd::laws_cmp::obeys_cmp::<(u64, u64)>());
    }
    let ghost sq = spec_btree_map_iter(m).remaining();
    let mut out: Vec<(u64, u64)> = Vec::new();
    for kv in it: m.iter()
        invariant
            it.seq() == sq,
            out@.len() == it.index(),
            forall|i: int| 0 <= i < out@.len() ==> out@[i] == *sq[i].0,
    {
        out.push(*kv.0);
    }
    proof {
        let keys = sq.map_values(|kv: (&(u64, u64), &V)| *kv.0);
        assert(vstd::laws_cmp::obeys_cmp::<(u64, u64)>());
        assert(increasing_seq(keys));
        assert forall|i: int, j: int| 0 <= i < j < out@.len() implies key_lt(out@[i], out@[j]) by {
            assert(keys[i] == out@[i]);
            assert(keys[j] == out@[j]);
            assert(keys[i].cmp_spec(&keys[j]) is Less);
        }
        assert forall|i: int| 0 <= i < out@.len() implies #[trigger] m@.contains_key(out@[i]) by {
            assert(m@.contains_key(*sq[i].0));
        }
        assert forall|k: (u64, u64)| #[trigger] m@.contains_key(k) implies out@.contains(k) by {
            assert(sq.contains((&k, &m@[k])));
            let i = choose|i: int| 0 <= i < sq.len() && sq[i] == (&k, &m@[k]);
            assert(out@[i] == k);
        }
    }
    out
}

/// `s` lists every key of `m` exactly once, in increasing order.
pub open spec fn is_sorted_u64_keys<V>(m: Map<u64, V>, s: Seq<u64>) -> bool {
    &&& forall|i: int, j: int| 0 <= i < j < s.len() ==> s[i] < s[j]
    &&& forall|i: int| 0 <= i < s.len() ==> #[trigger] m.contains_key(s[i])
    &&& forall|k: u64| #[trigger] m.contains_key(k) ==> s.contains(k)
}

/// All keys of a `u64`-keyed map in increasing order.
pub(crate) fn u64_map_keys<V>(m: &BTreeMap<u64, V>) -> (r: Vec<u64>)
    ensures
        is_sorted_u64_keys(m@, r@),
{
    let ghost sq = spec_btree_map_iter(m).remaining();
    let mut out: Vec<u64> = Vec::new();
    for kv in it: m.iter()
        invariant
            it.seq() == sq,
            out@.len() == it.index(),
            forall|i: int| 0 <= i < out@.len() ==> out@[i] == *sq[i].0,
    {
        out.push(*kv.0);
    }
    proof {
        let keys = sq.map_values(|kv: (&u64, &V)| *kv.0);
        assert(vstd::laws_cmp::obeys_cmp::<u64>());
        assert(increasing_seq(keys));
        assert forall|i: int, j: int| 0 <= i < j < out@.len() implies out@[i] < out@[j] by {
            assert(keys[i] == out@[i]);
            assert(keys[j] == out@[j]);
            assert(keys[i].cmp_spec(&keys[j]) is Less);
        }
        assert forall|i: int| 0 <= i < out@.len() implies #[trigger] m@.contains_key(out@[i]) by {
            assert(m@.contains_key(*sq[i].0));
        }
        assert forall|k: u64| #[trigger] m@.contains_key(k) implies out@.contains(k) by {
            assert(sq.contains((&k, &m@[k])));
            let i = choose|i: int| 0 <= i < sq.len() && sq[i] == (&k, &m@[k]);
            assert(out@[i] == k);
        }
    }
    out
}

} // verus!
