//! Rows kept in a vector under a unique key, seen as a map from key to value.
use vstd::prelude::*;

verus! {

/// No two rows share a key.
pub open spec fn keys_unique<T, K>(v: Seq<T>, key: spec_fn(T) -> K) -> bool {
    forall|i: int, j: int|
        0 <= i < v.len() && 0 <= j < v.len() && key(#[trigger] v[i]) == key(#[trigger] v[j]) ==> i == j
}

/// Some row has key `k`.
pub open spec fn has_key<T, K>(v: Seq<T>, key: spec_fn(T) -> K, k: K) -> bool {
    exists|i: int| 0 <= i < v.len() && key(#[trigger] v[i]) == k
}

/// The rows as a map from key to the value of the row.
pub open spec fn table_map<T, K, V>(v: Seq<T>, key: spec_fn(T) -> K, val: spec_fn(T) -> V) -> Map<K, V> {
    Map::new(
        |k: K| has_key(v, key, k),
        |k: K| val(v[choose|i: int| 0 <= i < v.len() && key(#[trigger] v[i]) == k]),
    )
}

pub proof fn lemma_table_at<T, K, V>(v: Seq<T>, key: spec_fn(T) -> K, val: spec_fn(T) -> V, i: int)
    requires
        keys_unique(v, key),
        0 <= i < v.len(),
    ensures
        table_map(v, key, val).contains_key(key(v[i])),
        table_map(v, key, val)[key(v[i])] == val(v[i]),
{
    let k = key(v[i]);
    assert(has_key(v, key, k));
    let j = choose|j: int| 0 <= j < v.len() && key(#[trigger] v[j]) == k;
    assert(j == i);
}

pub proof fn lemma_table_absent<T, K, V>(v: Seq<T>, key: spec_fn(T) -> K, val: spec_fn(T) -> V, k: K)
    requires
        forall|i: int| 0 <= i < v.len() ==> key(#[trigger] v[i]) != k,
    ensures
        !table_map(v, key, val).contains_key(k),
{
}

pub proof fn lemma_table_update<T, K, V>(
    v: Seq<T>,
    key: spec_fn(T) -> K,
    val: spec_fn(T) -> V,
    i: int,
    x: T,
)
    requires
        keys_unique(v, key),
        0 <= i < v.len(),
        key(x) == key(v[i]),
    ensures
        keys_unique(v.update(i, x), key),
        table_map(v.update(i, x), key, val) == table_map(v, key, val).insert(key(x), val(x)),
{
    let w = v.update(i, x);
    assert forall|a: int, b: int|
        0 <= a < w.len() && 0 <= b < w.len() && key(#[trigger] w[a]) == key(#[trigger] w[b]) implies a
        == b by {
        assert(key(v[a]) == key(w[a]));
        assert(key(v[b]) == key(w[b]));
    }
    let lhs = table_map(w, key, val);
    let rhs = table_map(v, key, val).insert(key(x), val(x));
    assert forall|k: K| lhs.contains_key(k) <==> rhs.contains_key(k) by {
        if lhs.contains_key(k) {
            let j = choose|j: int| 0 <= j < w.len() && key(#[trigger] w[j]) == k;
            assert(key(v[j]) == k);
        }
        if rhs.contains_key(k) && k != key(x) {
            let j = choose|j: int| 0 <= j < v.len() && key(#[trigger] v[j]) == k;
            assert(key(w[j]) == k);
        }
        if k == key(x) {
            assert(key(w[i]) == k);
        }
    }
    assert forall|k: K| lhs.contains_key(k) implies lhs[k] == rhs[k] by {
        let j = choose|j: int| 0 <= j < w.len() && key(#[trigger] w[j]) == k;
        lemma_table_at(w, key, val, j);
        if j != i {
            lemma_table_at(v, key, val, j);
        }
    }
    assert(lhs =~= rhs);
}

pub proof fn lemma_table_push<T, K, V>(v: Seq<T>, key: spec_fn(T) -> K, val: spec_fn(T) -> V, x: T)
    requires
        keys_unique(v, key),
        !table_map(v, key, val).contains_key(key(x)),
    ensures
        keys_unique(v.push(x), key),
        table_map(v.push(x), key, val) == table_map(v, key, val).insert(key(x), val(x)),
{
    let w = v.push(x);
    assert forall|a: int, b: int|
        0 <= a < w.len() && 0 <= b < w.len() && key(#[trigger] w[a]) == key(#[trigger] w[b]) implies a
        == b by {
        if a < v.len() && b == v.len() {
            assert(has_key(v, key, key(x)));
        }
        if b < v.len() && a == v.len() {
            assert(has_key(v, key, key(x)));
        }
        if a < v.len() && b < v.len() {
            assert(v[a] == w[a] && v[b] == w[b]);
        }
    }
    let lhs = table_map(w, key, val);
    let rhs = table_map(v, key, val).insert(key(x), val(x));
    assert forall|k: K| lhs.contains_key(k) <==> rhs.contains_key(k) by {
        if lhs.contains_key(k) {
            let j = choose|j: int| 0 <= j < w.len() && key(#[trigger] w[j]) == k;
            if j < v.len() {
                assert(key(v[j]) == k);
            }
        }
        if rhs.contains_key(k) && k != key(x) {
            let j = choose|j: int| 0 <= j < v.len() && key(#[trigger] v[j]) == k;
            assert(key(w[j]) == k);
        }
        if k == key(x) {
            assert(key(w[v.len() as int]) == k);
        }
    }
    assert forall|k: K| lhs.contains_key(k) implies lhs[k] == rhs[k] by {
        let j = choose|j: int| 0 <= j < w.len() && key(#[trigger] w[j]) == k;
        lemma_table_at(w, key, val, j);
        if j < v.len() {
            assert(w[j] == v[j]);
            lemma_table_at(v, key, val, j);
        }
    }
    assert(lhs =~= rhs);
}

/// A key of the map is the key of some row, whose value it maps to.
pub proof fn lemma_table_index<T, K, V>(v: Seq<T>, key: spec_fn(T) -> K, val: spec_fn(T) -> V, k: K) -> (j: int)
    requires
        keys_unique(v, key),
        table_map(v, key, val).contains_key(k),
    ensures
        0 <= j < v.len(),
        key(v[j]) == k,
        table_map(v, key, val)[k] == val(v[j]),
{
    let j = choose|j: int| 0 <= j < v.len() && key(#[trigger] v[j]) == k;
    lemma_table_at(v, key, val, j);
    j
}

/// Rows with the same keys and values, position by position, make the same
/// map.
pub proof fn lemma_table_same<T, K, V>(a: Seq<T>, b: Seq<T>, key: spec_fn(T) -> K, val: spec_fn(T) -> V)
    requires
        keys_unique(a, key),
        a.len() == b.len(),
        forall|i: int| 0 <= i < a.len() ==> key(#[trigger] a[i]) == key(b[i]) && val(a[i]) == val(b[i]),
    ensures
        keys_unique(b, key),
        table_map(a, key, val) == table_map(b, key, val),
{
    assert forall|i: int, j: int|
        0 <= i < b.len() && 0 <= j < b.len() && key(#[trigger] b[i]) == key(#[trigger] b[j]) implies i == j by {
        assert(key(a[i]) == key(b[i]) && key(a[j]) == key(b[j]));
    }
    let ma = table_map(a, key, val);
    let mb = table_map(b, key, val);
    assert forall|k: K| ma.contains_key(k) <==> mb.contains_key(k) by {
        if ma.contains_key(k) {
            let j = lemma_table_index(a, key, val, k);
            assert(key(b[j]) == k);
        }
        if mb.contains_key(k) {
            let j = lemma_table_index(b, key, val, k);
            assert(key(a[j]) == k);
        }
    }
    assert forall|k: K| ma.contains_key(k) implies ma[k] == mb[k] by {
        let j = lemma_table_index(a, key, val, k);
        assert(key(b[j]) == k);
        lemma_table_at(b, key, val, j);
    }
    assert(ma =~= mb);
}

} // verus!
