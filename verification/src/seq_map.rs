//! The finite map induced by a sequence of keyed records, together with the
//! lemmas that relate sequence edits (push, update, remove) to map edits. The
//! verified stores hold their rows in a `Vec` and expose a `Map` view through
//! these definitions.

use vstd::prelude::*;

verus! {

/// The map collecting every record of `s` under its key; on duplicate keys the
/// later record wins, though the stores never hold duplicates.
pub open spec fn as_map<A, K, V>(s: Seq<A>, key: spec_fn(A) -> K, val: spec_fn(A) -> V) -> Map<
    K,
    V,
>
    decreases s.len(),
{
    if s.len() == 0 {
        Map::empty()
    } else {
        as_map(s.drop_last(), key, val).insert(key(s.last()), val(s.last()))
    }
}

/// Pairwise distinct keys: the uniqueness constraint of the stores.
pub open spec fn distinct_keys<A, K>(s: Seq<A>, key: spec_fn(A) -> K) -> bool {
    forall|i: int, j: int| 0 <= i < j < s.len() ==> key(s[i]) != key(s[j])
}

/// For one key `k`: membership in the map matches the existence of a record,
/// and under distinctness the map returns that record's value.
pub proof fn lemma_as_map_get<A, K, V>(s: Seq<A>, key: spec_fn(A) -> K, val: spec_fn(A) -> V, k: K)
    requires
        distinct_keys(s, key),
    ensures
        as_map(s, key, val).dom().contains(k) <==> exists|i: int|
            0 <= i < s.len() && key(#[trigger] s[i]) == k,
        forall|i: int|
            0 <= i < s.len() && key(#[trigger] s[i]) == k ==> as_map(s, key, val)[k] == val(s[i]),
    decreases s.len(),
{
    if s.len() > 0 {
        let d = s.drop_last();
        assert(forall|i: int| 0 <= i < d.len() ==> #[trigger] d[i] == s[i]);
        lemma_as_map_get(d, key, val, k);
        let m = as_map(s, key, val);
        let last = s.last();
        assert(s[s.len() - 1] == last);
        if k == key(last) {
            assert(m.dom().contains(k));
            assert(m[k] == val(last));
            assert forall|i: int| 0 <= i < s.len() && key(#[trigger] s[i]) == k implies m[k] == val(
                s[i],
            ) by {
                if i < s.len() - 1 {
                    assert(key(s[i]) != key(s[s.len() - 1]));
                }
            }
        } else {
            assert(m.dom().contains(k) <==> as_map(d, key, val).dom().contains(k));
            if as_map(d, key, val).dom().contains(k) {
                let i = choose|i: int| 0 <= i < d.len() && key(#[trigger] d[i]) == k;
                assert(0 <= i < s.len() && key(s[i]) == k);
            }
            if exists|i: int| 0 <= i < s.len() && key(#[trigger] s[i]) == k {
                let i = choose|i: int| 0 <= i < s.len() && key(#[trigger] s[i]) == k;
                assert(i != s.len() - 1);
                assert(key(d[i]) == k);
            }
        }
    }
}

/// Appending a fresh record inserts its key.
pub proof fn lemma_as_map_push<A, K, V>(
    s: Seq<A>,
    key: spec_fn(A) -> K,
    val: spec_fn(A) -> V,
    a: A,
)
    ensures
        as_map(s.push(a), key, val) == as_map(s, key, val).insert(key(a), val(a)),
{
    assert(s.push(a).drop_last() =~= s);
    assert(s.push(a).last() == a);
}

/// Overwriting the record at `i` with one carrying the same key updates that
/// key's value.
pub proof fn lemma_as_map_update<A, K, V>(
    s: Seq<A>,
    key: spec_fn(A) -> K,
    val: spec_fn(A) -> V,
    i: int,
    a: A,
)
    requires
        distinct_keys(s, key),
        0 <= i < s.len(),
        key(a) == key(s[i]),
    ensures
        as_map(s.update(i, a), key, val) == as_map(s, key, val).insert(key(a), val(a)),
    decreases s.len(),
{
    let d = s.drop_last();
    assert(forall|j: int| 0 <= j < d.len() ==> #[trigger] d[j] == s[j]);
    if i == s.len() - 1 {
        assert(s.update(i, a).drop_last() =~= d);
        assert(s.update(i, a).last() == a);
        assert(as_map(s.update(i, a), key, val) == as_map(d, key, val).insert(key(a), val(a)));
        assert(as_map(d, key, val).insert(key(s.last()), val(s.last())).insert(key(a), val(a))
            =~= as_map(d, key, val).insert(key(a), val(a)));
    } else {
        assert(s.update(i, a).drop_last() =~= d.update(i, a));
        assert(s.update(i, a).last() == s.last());
        lemma_as_map_update(d, key, val, i, a);
        assert(key(s[i]) != key(s[s.len() - 1]));
        assert(as_map(d, key, val).insert(key(a), val(a)).insert(key(s.last()), val(s.last()))
            =~= as_map(d, key, val).insert(key(s.last()), val(s.last())).insert(
            key(a),
            val(a),
        ));
    }
}

/// Removing the record at `i` removes its key.
pub proof fn lemma_as_map_remove<A, K, V>(
    s: Seq<A>,
    key: spec_fn(A) -> K,
    val: spec_fn(A) -> V,
    i: int,
)
    requires
        distinct_keys(s, key),
        0 <= i < s.len(),
    ensures
        as_map(s.remove(i), key, val) == as_map(s, key, val).remove(key(s[i])),
    decreases s.len(),
{
    let d = s.drop_last();
    assert(forall|j: int| 0 <= j < d.len() ==> #[trigger] d[j] == s[j]);
    if i == s.len() - 1 {
        assert(s.remove(i) =~= d);
        lemma_as_map_get(d, key, val, key(s[i]));
        assert(!as_map(d, key, val).dom().contains(key(s[i]))) by {
            if as_map(d, key, val).dom().contains(key(s[i])) {
                let j = choose|j: int| 0 <= j < d.len() && key(#[trigger] d[j]) == key(s[i]);
                assert(key(s[j]) == key(s[s.len() - 1]));
            }
        }
        assert(as_map(d, key, val).insert(key(s.last()), val(s.last())).remove(key(s[i]))
            =~= as_map(d, key, val));
    } else {
        assert(s.remove(i).drop_last() =~= d.remove(i));
        assert(s.remove(i).len() == s.len() - 1);
        assert(s.remove(i).last() == s.last());
        lemma_as_map_remove(d, key, val, i);
        assert(key(s[i]) != key(s[s.len() - 1]));
        assert(as_map(d, key, val).remove(key(s[i])).insert(key(s.last()), val(s.last()))
            =~= as_map(d, key, val).insert(key(s.last()), val(s.last())).remove(key(s[i])));
        assert(as_map(s.remove(i), key, val) == as_map(d.remove(i), key, val).insert(
            key(s.last()),
            val(s.last()),
        ));
    }
}

} // verus!
