//! Assignment of declared items to distinct observed items (bipartite
//! matching by augmenting paths), over a precomputed compatibility matrix.
use vstd::prelude::*;
use vstd::relations::injective_on;
use vstd::set_lib::{lemma_int_range, lemma_len_subset, lemma_map_size, set_int_range};

verus! {

/// `m` assigns each of the first `rows` rows a distinct column in `0..n_cols`
/// whose cell is `true`.
pub open spec fn is_assignment(adj: Seq<Vec<bool>>, n_cols: int, rows: int, m: Seq<int>) -> bool {
    &&& m.len() == rows
    &&& forall|i: int| 0 <= i < rows ==> 0 <= #[trigger] m[i] < n_cols && adj[i]@[m[i]]
    &&& forall|i1: int, i2: int|
        0 <= i1 < rows && 0 <= i2 < rows && i1 != i2 ==> #[trigger] m[i1] != #[trigger] m[i2]
}

/// Some assignment of the first `rows` rows exists.
pub open spec fn assignable(adj: Seq<Vec<bool>>, n_cols: int, rows: int) -> bool {
    exists|m: Seq<int>| #[trigger] is_assignment(adj, n_cols, rows, m)
}

/// Every row of the matrix has `n_cols` cells.
pub open spec fn rectangular(adj: Seq<Vec<bool>>, n_cols: int) -> bool {
    forall|r: int| 0 <= r < adj.len() ==> (#[trigger] adj[r])@.len() == n_cols
}

/// Number of `false` entries.
pub open spec fn count_false(s: Seq<bool>) -> nat
    decreases s.len(),
{
    if s.len() == 0 {
        0
    } else {
        count_false(s.drop_last()) + if s.last() {
            0nat
        } else {
            1nat
        }
    }
}

/// Turning entries on never adds `false` entries, and turning one on removes one.
proof fn lemma_count_false_mono(s1: Seq<bool>, s2: Seq<bool>)
    requires
        s1.len() == s2.len(),
        forall|j: int| 0 <= j < s1.len() && #[trigger] s1[j] ==> s2[j],
    ensures
        count_false(s2) <= count_false(s1),
        (exists|j: int| 0 <= j < s1.len() && !s1[j] && #[trigger] s2[j]) ==> count_false(s2)
            < count_false(s1),
    decreases s1.len(),
{
    if s1.len() > 0 {
        let a = s1.drop_last();
        let b = s2.drop_last();
        assert forall|j: int| 0 <= j < a.len() && #[trigger] a[j] implies b[j] by {
            assert(s1[j]);
        }
        lemma_count_false_mono(a, b);
        if exists|j: int| 0 <= j < s1.len() && !s1[j] && #[trigger] s2[j] {
            let j = choose|j: int| 0 <= j < s1.len() && !s1[j] && #[trigger] s2[j];
            if j < s1.len() - 1 {
                assert(!a[j] && b[j]);
            }
        }
    }
}

spec fn owner_valid(adj: Seq<Vec<bool>>, n_cols: int, o: Seq<Option<usize>>, bound: int) -> bool {
    &&& o.len() == n_cols
    &&& forall|j: int|
        0 <= j < n_cols && (#[trigger] o[j]) is Some ==> (o[j]->0 as int) < bound && adj[o[j]->0 as int]@[j]
}

spec fn owner_injective(o: Seq<Option<usize>>) -> bool {
    forall|j1: int, j2: int|
        0 <= j1 < o.len() && 0 <= j2 < o.len() && j1 != j2 && (#[trigger] o[j1]) is Some ==> o[j1]
            != #[trigger] o[j2]
}

spec fn is_matched(o: Seq<Option<usize>>, k: int) -> bool {
    exists|j: int| 0 <= j < o.len() && (#[trigger] o[j]) is Some && o[j]->0 == k
}

/// If the rows reached by a failed search (the root and the owners of the
/// visited columns) can only use visited columns, there are more of them than
/// visited columns, so no assignment of the first `root + 1` rows exists.
proof fn lemma_hall_violation(
    adj: Seq<Vec<bool>>,
    n_cols: int,
    root: int,
    o: Seq<Option<usize>>,
    t: Seq<bool>,
)
    requires
        0 <= root < adj.len(),
        n_cols >= 0,
        rectangular(adj, n_cols),
        owner_valid(adj, n_cols, o, root),
        owner_injective(o),
        t.len() == n_cols,
        forall|j: int| 0 <= j < n_cols && #[trigger] t[j] ==> o[j] is Some,
        forall|j: int| 0 <= j < n_cols && #[trigger] adj[root]@[j] ==> t[j],
        forall|j: int, j2: int|
            0 <= j < n_cols && 0 <= j2 < n_cols && #[trigger] t[j] && #[trigger] adj[o[j]->0 as int]@[j2]
                ==> t[j2],
    ensures
        !assignable(adj, n_cols, root + 1),
{
    if assignable(adj, n_cols, root + 1) {
        let m = choose|m: Seq<int>| #[trigger] is_assignment(adj, n_cols, root + 1, m);
        let tset = Set::new(|j: int| 0 <= j < n_cols && t[j]);
        lemma_int_range(0, n_cols);
        assert(tset.subset_of(set_int_range(0, n_cols)));
        lemma_len_subset(tset, set_int_range(0, n_cols));
        let f = |j: int| o[j]->0 as int;
        assert(injective_on(f, tset)) by {
            assert forall|j1: int, j2: int|
                tset.contains(j1) && tset.contains(j2) && #[trigger] f(j1) == #[trigger] f(j2)
                implies j1 == j2 by {
                if j1 != j2 {
                    assert(o[j1] is Some);
                    assert(o[j1] != o[j2]);
                }
            }
        }
        let kset = tset.map(f);
        lemma_map_size(tset, kset, f);
        assert(!kset.contains(root)) by {
            if kset.contains(root) {
                let j = choose|j: int| tset.contains(j) && f(j) == root;
                assert(o[j] is Some);
            }
        }
        let sset = kset.insert(root);
        assert(sset.len() == tset.len() + 1);
        let g = |k: int| m[k];
        assert forall|k: int| #[trigger] sset.contains(k) implies 0 <= k < root + 1 by {
            if k != root {
                let j = choose|j: int| tset.contains(j) && f(j) == k;
                assert(o[j] is Some);
            }
        }
        assert(injective_on(g, sset)) by {
            assert forall|k1: int, k2: int|
                sset.contains(k1) && sset.contains(k2) && #[trigger] g(k1) == #[trigger] g(k2)
                implies k1 == k2 by {
                if k1 != k2 {
                    assert(m[k1] != m[k2]);
                }
            }
        }
        let image = sset.map(g);
        lemma_map_size(sset, image, g);
        assert(image.subset_of(tset)) by {
            assert forall|c: int| #[trigger] image.contains(c) implies tset.contains(c) by {
                let k = choose|k: int| sset.contains(k) && g(k) == c;
                assert(0 <= m[k] < n_cols && adj[k]@[m[k]]);
                if k == root {
                    assert(t[c]);
                } else {
                    let j = choose|j: int| tset.contains(j) && f(j) == k;
                    assert(o[j] is Some);
                    assert(t[j] && adj[o[j]->0 as int]@[c]);
                }
            }
        }
        lemma_len_subset(image, tset);
    }
}

/// Searches for an augmenting path from row `i` over the unvisited columns.
fn augment(
    adj: &Vec<Vec<bool>>,
    n_cols: usize,
    i: usize,
    seen: &mut Vec<bool>,
    owner: &mut Vec<Option<usize>>,
) -> (found: bool)
    requires
        i < adj@.len(),
        rectangular(adj@, n_cols as int),
        old(seen)@.len() == n_cols,
        owner_valid(adj@, n_cols as int, old(owner)@, adj@.len() as int),
        owner_injective(old(owner)@),
        forall|j: int| 0 <= j < n_cols && #[trigger] old(owner)@[j] == Some(i) ==> old(seen)@[j],
    ensures
        final(seen)@.len() == n_cols,
        final(owner)@.len() == n_cols,
        forall|j: int| 0 <= j < n_cols && #[trigger] old(seen)@[j] ==> final(seen)@[j],
        found ==> {
            &&& forall|j: int|
                0 <= j < n_cols && #[trigger] old(seen)@[j] ==> final(owner)@[j] == old(owner)@[j]
            &&& owner_valid(adj@, n_cols as int, final(owner)@, adj@.len() as int)
            &&& exists|jn: int|
                0 <= jn < n_cols && !old(seen)@[jn] && final(owner)@[jn] == Some(i) && forall|j: int|
                    0 <= j < n_cols && #[trigger] final(owner)@[j] == Some(i) ==> j == jn
                        || old(owner)@[j] == Some(i)
            &&& forall|j1: int, j2: int|
                0 <= j1 < n_cols && 0 <= j2 < n_cols && j1 != j2 && (#[trigger] final(owner)@[j1])
                    is Some && final(owner)@[j1] == #[trigger] final(owner)@[j2] ==> final(owner)@[j1]
                    == Some(i)
            &&& forall|k: int| is_matched(old(owner)@, k) ==> #[trigger] is_matched(final(owner)@, k)
            &&& forall|j: int|
                0 <= j < n_cols && #[trigger] final(owner)@[j] != old(owner)@[j] ==> {
                    &&& !old(seen)@[j]
                    &&& final(owner)@[j] is Some
                    &&& (final(owner)@[j] == Some(i) || exists|j2: int|
                        0 <= j2 < n_cols && !old(seen)@[j2] && old(owner)@[j2] == final(owner)@[j])
                }
        },
        !found ==> {
            &&& final(owner)@ == old(owner)@
            &&& forall|j: int| 0 <= j < n_cols && #[trigger] adj@[i as int]@[j] ==> final(seen)@[j]
            &&& forall|j: int|
                0 <= j < n_cols && #[trigger] final(seen)@[j] && !old(seen)@[j] ==> {
                    &&& old(owner)@[j] is Some
                    &&& forall|j2: int|
                        0 <= j2 < n_cols && #[trigger] adj@[old(owner)@[j]->0 as int]@[j2]
                            ==> final(seen)@[j2]
                }
        },
    decreases count_false(old(seen)@),
{
    let ghost seen0 = seen@;
    let ghost owner0 = owner@;
    let mut j: usize = 0;
    while j < n_cols
        invariant
            i < adj@.len(),
            rectangular(adj@, n_cols as int),
            seen0.len() == n_cols,
            seen0 == old(seen)@,
            owner0 == old(owner)@,
            seen@.len() == n_cols,
            owner@ == owner0,
            owner_valid(adj@, n_cols as int, owner0, adj@.len() as int),
            owner_injective(owner0),
            forall|jj: int| 0 <= jj < n_cols && #[trigger] owner0[jj] == Some(i) ==> seen0[jj],
            forall|jj: int| 0 <= jj < n_cols && #[trigger] seen0[jj] ==> seen@[jj],
            count_false(seen@) <= count_false(seen0),
            j <= n_cols,
            forall|jj: int| 0 <= jj < j && #[trigger] adj@[i as int]@[jj] ==> seen@[jj],
            forall|jj: int|
                0 <= jj < n_cols && #[trigger] seen@[jj] && !seen0[jj] ==> {
                    &&& owner0[jj] is Some
                    &&& forall|j2: int|
                        0 <= j2 < n_cols && #[trigger] adj@[owner0[jj]->0 as int]@[j2] ==> seen@[j2]
                },
        decreases n_cols - j,
    {
        if !seen[j] && adj[i][j] {
            let ghost before = seen@;
            seen.set(j, true);
            proof {
                lemma_count_false_mono(before, seen@);
                assert(!before[j as int] && seen@[j as int]);
                lemma_count_false_mono(seen0, seen@);
            }
            match owner[j] {
                None => {
                    owner.set(j, Some(i));
                    proof {
                        assert(!seen0[j as int]);
                        assert forall|jj: int| 0 <= jj < n_cols && #[trigger] seen0[jj] implies seen@[jj] by {
                            assert(before[jj]);
                        }
                        assert forall|jj: int| 0 <= jj < n_cols && #[trigger] seen0[jj] implies owner@[jj]
                            == owner0[jj] by {
                            assert(jj != j);
                        }
                        assert forall|jx: int|
                            0 <= jx < n_cols && #[trigger] owner@[jx] == Some(i) implies jx == j as int
                            || owner0[jx] == Some(i) by {
                        }
                        assert forall|j1: int, j2: int|
                            0 <= j1 < n_cols && 0 <= j2 < n_cols && j1 != j2 && (
                            #[trigger] owner@[j1]) is Some && owner@[j1] == #[trigger] owner@[j2]
                            implies owner@[j1] == Some(i) by {
                            if j1 != j && j2 != j {
                                assert(owner0[j1] != owner0[j2]);
                            }
                        }
                        assert forall|k: int| is_matched(owner0, k) implies #[trigger] is_matched(
                            owner@,
                            k,
                        ) by {
                            let w = choose|w: int| 0 <= w < owner0.len() && (#[trigger] owner0[w]) is Some && owner0[w]->0 == k;
                            assert(w != j);
                            assert(owner@[w] == owner0[w]);
                        }
                        assert(owner@[j as int] == Some(i));
                    }
                    return true;
                },
                Some(k) => {
                    assert(k != i) by {
                        if k == i {
                            assert(owner0[j as int] == Some(i));
                        }
                    }
                    assert forall|jj: int|
                        0 <= jj < n_cols && #[trigger] owner@[jj] == Some(k) implies seen@[jj] by {
                        if jj != j {
                            assert(owner0[j as int] is Some);
                            assert(owner0[j as int] != owner0[jj]);
                        }
                    }
                    let ghost seen1 = seen@;
                    let found = augment(adj, n_cols, k, seen, owner);
                    proof {
                        assert forall|jj: int| 0 <= jj < n_cols && #[trigger] seen0[jj] implies seen@[jj] by {
                            assert(seen1[jj]);
                        }
                    }
                    if found {
                        let ghost owner1 = owner@;
                        owner.set(j, Some(i));
                        proof {
                            assert(seen1[j as int]);
                            assert(owner1[j as int] == Some(k));
                            let jk = choose|jn: int|
                                0 <= jn < n_cols && !seen1[jn] && owner1[jn] == Some(k) && forall|
                                    jx: int,
                                |
                                    0 <= jx < n_cols && #[trigger] owner1[jx] == Some(k) ==> jx
                                        == jn || owner0[jx] == Some(k);
                            assert(jk != j);
                            // old positions keep their owners
                            assert forall|jx: int|
                                0 <= jx < n_cols && #[trigger] seen0[jx] implies owner@[jx]
                                == owner0[jx] by {
                                assert(seen1[jx]);
                                if jx == j {
                                    assert(!seen0[jx]);
                                }
                            }
                            // validity
                            assert forall|jx: int|
                                0 <= jx < n_cols && (#[trigger] owner@[jx]) is Some implies (
                                owner@[jx]->0 as int) < adj@.len() && adj@[owner@[jx]->0 as int]@[jx] by {
                                if jx != j {
                                    assert(owner1[jx] is Some);
                                }
                            }
                            // the only new position owned by i is j
                            assert forall|jx: int|
                                0 <= jx < n_cols && #[trigger] owner@[jx] == Some(i) implies jx == j as int
                                || owner0[jx] == Some(i) by {
                                if jx != j && owner1[jx] != owner0[jx] {
                                    assert(owner1[jx] == Some(k) || exists|j2: int|
                                        0 <= j2 < n_cols && !seen1[j2] && owner0[j2] == owner1[jx]);
                                    if owner1[jx] != Some(k) {
                                        let j2 = choose|j2: int|
                                            0 <= j2 < n_cols && !seen1[j2] && owner0[j2] == owner1[jx];
                                        assert(owner0[j2] == Some(i));
                                        assert(seen0[j2]);
                                    }
                                }
                            }
                            assert(!seen0[j as int]);
                            // duplicates are only of i
                            assert forall|j1: int, j2: int|
                                0 <= j1 < n_cols && 0 <= j2 < n_cols && j1 != j2 && (
                                #[trigger] owner@[j1]) is Some && owner@[j1] == #[trigger] owner@[j2]
                                implies owner@[j1] == Some(i) by {
                                if j1 != j && j2 != j {
                                    assert(owner1[j1] == owner1[j2]);
                                    assert(owner1[j1] == Some(k));
                                    // k appears only at jk and at j among owner1
                                    assert(j1 == jk || owner0[j1] == Some(k));
                                    assert(j2 == jk || owner0[j2] == Some(k));
                                    if owner0[j1] == Some(k) {
                                        assert(owner0[j as int] != owner0[j1] || j1 == j);
                                    }
                                    if owner0[j2] == Some(k) {
                                        assert(owner0[j as int] != owner0[j2] || j2 == j);
                                    }
                                }
                            }
                            // every previously matched row stays matched
                            assert forall|kk: int| is_matched(owner0, kk) implies #[trigger] is_matched(
                                owner@,
                                kk,
                            ) by {
                                assert(is_matched(owner1, kk));
                                let w = choose|w: int| 0 <= w < owner1.len() && (#[trigger] owner1[w]) is Some && owner1[w]->0 == kk;
                                if w == j {
                                    assert(kk == k);
                                    assert(owner@[jk] == Some(k));
                                } else {
                                    assert(owner@[w] == owner1[w]);
                                }
                            }
                            // changed positions
                            assert forall|jx: int|
                                0 <= jx < n_cols && #[trigger] owner@[jx] != owner0[jx] implies {
                                &&& !seen0[jx]
                                &&& owner@[jx] is Some
                                &&& (owner@[jx] == Some(i) || exists|j2: int|
                                    0 <= j2 < n_cols && !seen0[j2] && owner0[j2] == owner@[jx])
                            } by {
                                if jx != j {
                                    assert(owner1[jx] != owner0[jx]);
                                    assert(!seen1[jx]);
                                    if owner1[jx] == Some(k) {
                                        assert(owner0[j as int] == owner@[jx]);
                                    } else {
                                        let j2 = choose|j2: int|
                                            0 <= j2 < n_cols && !seen1[j2] && owner0[j2] == owner1[jx];
                                        assert(!seen0[j2]);
                                    }
                                }
                            }
                        }
                        return true;
                    } else {
                        proof {
                            lemma_count_false_mono(seen1, seen@);
                            assert forall|jj: int| 0 <= jj < n_cols && #[trigger] seen1[jj] implies seen@[jj] by {
                            }
                            assert forall|jj: int| 0 <= jj < j + 1 && #[trigger] adj@[i as int]@[jj] implies seen@[jj] by {
                                if jj < j {
                                    assert(before[jj]);
                                }
                                assert(seen1[jj]);
                            }
                            assert forall|jj: int|
                                0 <= jj < n_cols && #[trigger] seen@[jj] && !seen0[jj] implies {
                                &&& owner0[jj] is Some
                                &&& forall|j2: int|
                                    0 <= j2 < n_cols && #[trigger] adj@[owner0[jj]->0 as int]@[j2] ==> seen@[j2]
                            } by {
                                if seen1[jj] {
                                    if jj != j {
                                        assert(before[jj]);
                                        assert forall|j2: int|
                                            0 <= j2 < n_cols && #[trigger] adj@[owner0[jj]->0 as int]@[j2]
                                            implies seen@[j2] by {
                                            assert(before[j2]);
                                            assert(seen1[j2]);
                                        }
                                    }
                                }
                            }
                        }
                    }
                },
            }
        }
        j = j + 1;
    }
    false
}

/// Tries to give every row a distinct column whose cell is `true`.
///
/// `Ok(())` when every row can be assigned; `Err(i)` names the first row `i`
/// such that rows `0..=i` cannot all be assigned (rows `0..i` can).
pub fn assign_all_rows(adj: &Vec<Vec<bool>>, n_cols: usize) -> (r: Result<(), usize>)
    requires
        rectangular(adj@, n_cols as int),
    ensures
        match r {
            Ok(()) => assignable(adj@, n_cols as int, adj@.len() as int),
            Err(i) => i < adj@.len() && assignable(adj@, n_cols as int, i as int) && !assignable(
                adj@,
                n_cols as int,
                i + 1,
            ),
        },
{
    let mut owner: Vec<Option<usize>> = Vec::new();
    let mut c: usize = 0;
    while c < n_cols
        invariant
            c <= n_cols,
            owner@.len() == c,
            forall|j: int| 0 <= j < c ==> owner@[j] is None,
        decreases n_cols - c,
    {
        owner.push(None);
        c = c + 1;
    }
    let mut i: usize = 0;
    while i < adj.len()
        invariant
            i <= adj@.len(),
            rectangular(adj@, n_cols as int),
            owner_valid(adj@, n_cols as int, owner@, i as int),
            owner_injective(owner@),
            forall|k: int| 0 <= k < i ==> #[trigger] is_matched(owner@, k),
        decreases adj@.len() - i,
    {
        let mut seen: Vec<bool> = Vec::new();
        let mut c: usize = 0;
        while c < n_cols
            invariant
                c <= n_cols,
                seen@.len() == c,
                forall|j: int| 0 <= j < c ==> !seen@[j],
            decreases n_cols - c,
        {
            seen.push(false);
            c = c + 1;
        }
        let ghost owner0 = owner@;
        let ghost seen0 = seen@;
        proof {
            assert forall|j: int| 0 <= j < n_cols && #[trigger] owner0[j] == Some(i) implies seen0[j] by {
                assert(owner0[j] is Some);
            }
        }
        let found = augment(adj, n_cols, i, &mut seen, &mut owner);
        if !found {
            proof {
                assert(assignable(adj@, n_cols as int, i as int)) by {
                    lemma_matched_rows_assignable(adj@, n_cols as int, i as int, owner@);
                }
                assert forall|j: int| 0 <= j < n_cols && #[trigger] seen@[j] implies owner@[j] is Some by {
                    assert(!seen0[j]);
                }
                assert forall|j: int, j2: int|
                    0 <= j < n_cols && 0 <= j2 < n_cols && #[trigger] seen@[j] && #[trigger] adj@[owner@[j]->0 as int]@[j2]
                    implies seen@[j2] by {
                    assert(!seen0[j]);
                }
                lemma_hall_violation(adj@, n_cols as int, i as int, owner@, seen@);
            }
            return Err(i);
        }
        proof {
            let owner1 = owner@;
            assert forall|j1: int, j2: int|
                0 <= j1 < n_cols && 0 <= j2 < n_cols && j1 != j2 && (#[trigger] owner1[j1]) is Some
                implies owner1[j1] != #[trigger] owner1[j2] by {
                if owner1[j1] == owner1[j2] {
                    assert(owner1[j1] == Some(i));
                    let jn = choose|jn: int|
                        0 <= jn < n_cols && !seen0[jn] && owner1[jn] == Some(i) && forall|jx: int|
                            0 <= jx < n_cols && #[trigger] owner1[jx] == Some(i) ==> jx == jn
                                || owner0[jx] == Some(i);
                    assert(owner0[j1] != Some(i));
                    assert(owner0[j2] != Some(i));
                }
            }
            assert forall|j: int| 0 <= j < n_cols && (#[trigger] owner1[j]) is Some implies (
            owner1[j]->0 as int) < i + 1 by {
                if owner1[j] != owner0[j] {
                    if owner1[j] != Some(i) {
                        let j2 = choose|j2: int|
                            0 <= j2 < n_cols && !seen0[j2] && owner0[j2] == owner1[j];
                    }
                }
            }
            assert forall|k: int| 0 <= k < i + 1 implies #[trigger] is_matched(owner1, k) by {
                if k == i {
                    let jn = choose|jn: int|
                        0 <= jn < n_cols && !seen0[jn] && owner1[jn] == Some(i) && forall|jx: int|
                            0 <= jx < n_cols && #[trigger] owner1[jx] == Some(i) ==> jx == jn
                                || owner0[jx] == Some(i);
                    assert(owner1[jn] is Some && owner1[jn]->0 == k);
                } else {
                    assert(is_matched(owner0, k));
                }
            }
        }
        i = i + 1;
    }
    proof {
        lemma_matched_rows_assignable(adj@, n_cols as int, adj@.len() as int, owner@);
    }
    Ok(())
}

/// A valid injective owner table that matches every one of the first `rows`
/// rows yields an assignment of those rows.
proof fn lemma_matched_rows_assignable(
    adj: Seq<Vec<bool>>,
    n_cols: int,
    rows: int,
    o: Seq<Option<usize>>,
)
    requires
        0 <= rows <= adj.len(),
        owner_valid(adj, n_cols, o, rows),
        owner_injective(o),
        forall|k: int| 0 <= k < rows ==> #[trigger] is_matched(o, k),
    ensures
        assignable(adj, n_cols, rows),
{
    let m = Seq::new(
        rows as nat,
        |k: int| choose|j: int| 0 <= j < o.len() && (#[trigger] o[j]) is Some && o[j]->0 == k,
    );
    assert forall|k: int| 0 <= k < rows implies 0 <= #[trigger] m[k] < n_cols && adj[k]@[m[k]] by {
        assert(is_matched(o, k));
        let j = m[k];
        assert(0 <= j < o.len() && o[j] is Some && o[j]->0 == k);
    }
    assert forall|i1: int, i2: int|
        0 <= i1 < rows && 0 <= i2 < rows && i1 != i2 implies #[trigger] m[i1] != #[trigger] m[i2] by {
        assert(is_matched(o, i1));
        assert(is_matched(o, i2));
    }
    assert(is_assignment(adj, n_cols, rows, m));
}

} // verus!
