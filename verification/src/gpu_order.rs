//! The canonical order of an Agent's GPUs: by id, and among equal ids in the
//! order they were reported (a stable sort).
use vstd::prelude::*;
use crate::inventory::{GpuInventory, GpuView, gpu_views};
use crate::text::{lex_lt, lemma_lex_lt_irreflexive, lemma_lex_lt_total, lemma_lex_lt_transitive, str_lt};

verus! {

/// No GPU comes after one with a greater id.
pub open spec fn ids_sorted(s: Seq<GpuView>) -> bool {
    forall|i: int, j: int| 0 <= i < j < s.len() ==> !lex_lt(#[trigger] s[j].gpu_id, #[trigger] s[i].gpu_id)
}

pub open spec fn with_id(k: Seq<char>) -> spec_fn(GpuView) -> bool {
    |g: GpuView| g.gpu_id == k
}

/// `out` is `inp` stably sorted by id: sorted, and for every id the GPUs with
/// that id are the same and in the same order.
pub open spec fn is_stable_sort(out: Seq<GpuView>, inp: Seq<GpuView>) -> bool {
    &&& ids_sorted(out)
    &&& forall|k: Seq<char>| #[trigger] out.filter(with_id(k)) == inp.filter(with_id(k))
}

/// The GPUs in canonical order.
pub open spec fn sorted_gpus(gs: Seq<GpuView>) -> Seq<GpuView> {
    choose|g: Seq<GpuView>| is_stable_sort(g, gs)
}

proof fn lemma_filter_none<A>(s: Seq<A>, p: spec_fn(A) -> bool)
    requires
        forall|i: int| 0 <= i < s.len() ==> !p(#[trigger] s[i]),
    ensures
        s.filter(p) == Seq::<A>::empty(),
    decreases s.len(),
{
    reveal(Seq::filter);
    if s.len() > 0 {
        lemma_filter_none(s.drop_last(), p);
    }
}

proof fn lemma_filter_has<A>(s: Seq<A>, p: spec_fn(A) -> bool, i: int)
    requires
        0 <= i < s.len(),
        p(s[i]),
    ensures
        s.filter(p).len() > 0,
{
    s.lemma_filter_contains(p, i);
}

/// Two sequences sorted by id with the same GPUs under every id are equal.
proof fn lemma_sorted_unique(a: Seq<GpuView>, b: Seq<GpuView>)
    requires
        ids_sorted(a),
        ids_sorted(b),
        forall|k: Seq<char>| #[trigger] a.filter(with_id(k)) == b.filter(with_id(k)),
    ensures
        a == b,
    decreases a.len() + b.len(),
{
    broadcast use vstd::seq_lib::group_seq_properties;
    if a.len() == 0 || b.len() == 0 {
        if a.len() > 0 {
            lemma_filter_has(a, with_id(a[0].gpu_id), 0);
            lemma_filter_none(b, with_id(a[0].gpu_id));
        }
        if b.len() > 0 {
            lemma_filter_has(b, with_id(b[0].gpu_id), 0);
            lemma_filter_none(a, with_id(b[0].gpu_id));
        }
        assert(a =~= b);
    } else {
        let xa = a.last();
        let xb = b.last();
        let la = (a.len() - 1) as int;
        let lb = (b.len() - 1) as int;
        // The last id of each is present in the other, so neither is greater.
        b.lemma_filter_contains(with_id(xb.gpu_id), lb);
        assert(a.filter(with_id(xb.gpu_id)).contains(xb));
        a.lemma_filter_contains_rev(with_id(xb.gpu_id), xb);
        let ja = choose|j: int| 0 <= j < a.len() && a[j] == xb;
        if ja < la {
            assert(!lex_lt(a[la].gpu_id, a[ja].gpu_id));
        }
        a.lemma_filter_contains(with_id(xa.gpu_id), la);
        assert(b.filter(with_id(xa.gpu_id)).contains(xa));
        b.lemma_filter_contains_rev(with_id(xa.gpu_id), xa);
        let jb = choose|j: int| 0 <= j < b.len() && b[j] == xa;
        if jb < lb {
            assert(!lex_lt(b[lb].gpu_id, b[jb].gpu_id));
        }
        lemma_lex_lt_irreflexive(xa.gpu_id);
        if xa.gpu_id != xb.gpu_id {
            lemma_lex_lt_total(xa.gpu_id, xb.gpu_id);
        }
        assert(xa.gpu_id == xb.gpu_id);
        let m = xa.gpu_id;
        let a2 = a.drop_last();
        let b2 = b.drop_last();
        assert(a =~= a2.push(xa));
        assert(b =~= b2.push(xb));
        a2.lemma_filter_push(xa, with_id(m));
        b2.lemma_filter_push(xb, with_id(m));
        assert(a.filter(with_id(m)) == b.filter(with_id(m)));
        assert(a2.filter(with_id(m)).push(xa).last() == xa);
        assert(xa == xb);
        assert(a2.filter(with_id(m)) =~= a.filter(with_id(m)).drop_last());
        assert(b2.filter(with_id(m)) =~= b.filter(with_id(m)).drop_last());
        assert forall|k: Seq<char>| #[trigger] a2.filter(with_id(k)) == b2.filter(with_id(k)) by {
            a2.lemma_filter_push(xa, with_id(k));
            b2.lemma_filter_push(xb, with_id(k));
            assert(a.filter(with_id(k)) == b.filter(with_id(k)));
            if k != m {
                assert(a2.filter(with_id(k)) == a.filter(with_id(k)));
                assert(b2.filter(with_id(k)) == b.filter(with_id(k)));
            }
        }
        assert(ids_sorted(a2)) by {
            assert forall|i: int, j: int| 0 <= i < j < a2.len() implies !lex_lt(
                #[trigger] a2[j].gpu_id,
                #[trigger] a2[i].gpu_id,
            ) by {
                assert(a2[i] == a[i] && a2[j] == a[j]);
            }
        }
        assert(ids_sorted(b2)) by {
            assert forall|i: int, j: int| 0 <= i < j < b2.len() implies !lex_lt(
                #[trigger] b2[j].gpu_id,
                #[trigger] b2[i].gpu_id,
            ) by {
                assert(b2[i] == b[i] && b2[j] == b[j]);
            }
        }
        lemma_sorted_unique(a2, b2);
    }
}

/// A stable sort by id is unique: any sequence that is one is the canonical
/// order.
pub proof fn law_gpu_order_is_unique(out: Seq<GpuView>, inp: Seq<GpuView>)
    requires
        is_stable_sort(out, inp),
    ensures
        sorted_gpus(inp) == out,
{
    let c = sorted_gpus(inp);
    assert(is_stable_sort(c, inp));
    assert forall|k: Seq<char>| #[trigger] c.filter(with_id(k)) == out.filter(with_id(k)) by {
        assert(c.filter(with_id(k)) == inp.filter(with_id(k)));
        assert(out.filter(with_id(k)) == inp.filter(with_id(k)));
    }
    lemma_sorted_unique(c, out);
}

/// Inserting `x` after every GPU whose id is not greater keeps the order and
/// adds `x` at the end of the GPUs with its id.
proof fn lemma_insert_sorted(r: Seq<GpuView>, p: int, x: GpuView)
    requires
        ids_sorted(r),
        0 <= p <= r.len(),
        forall|j: int| 0 <= j < p ==> !lex_lt(x.gpu_id, #[trigger] r[j].gpu_id),
        forall|j: int| p <= j < r.len() ==> lex_lt(x.gpu_id, #[trigger] r[j].gpu_id),
    ensures
        ids_sorted(r.insert(p, x)),
        forall|k: Seq<char>| #[trigger] r.insert(p, x).filter(with_id(k)) == if x.gpu_id == k {
            r.filter(with_id(k)).push(x)
        } else {
            r.filter(with_id(k))
        },
{
    broadcast use vstd::seq_lib::group_seq_properties;
    let w = r.insert(p, x);
    r.insert_ensures(p, x);
    assert forall|i: int, j: int| 0 <= i < j < w.len() implies !lex_lt(
        #[trigger] w[j].gpu_id,
        #[trigger] w[i].gpu_id,
    ) by {
        if j < p {
            assert(w[i] == r[i] && w[j] == r[j]);
        } else if j == p {
            assert(w[i] == r[i]);
            if lex_lt(x.gpu_id, r[i].gpu_id) {
            }
        } else if i < p {
            assert(w[i] == r[i] && w[j] == r[j - 1]);
        } else if i == p {
            assert(w[j] == r[j - 1]);
            assert(lex_lt(x.gpu_id, r[j - 1].gpu_id));
            if lex_lt(r[j - 1].gpu_id, x.gpu_id) {
                lemma_lex_lt_transitive(x.gpu_id, r[j - 1].gpu_id, x.gpu_id);
                lemma_lex_lt_irreflexive(x.gpu_id);
            }
        } else {
            assert(w[i] == r[i - 1] && w[j] == r[j - 1]);
        }
    }
    let front = r.take(p);
    let back = r.skip(p);
    assert(w =~= front.push(x) + back);
    assert(r =~= front + back);
    assert forall|k: Seq<char>| #[trigger] w.filter(with_id(k)) == if x.gpu_id == k {
        r.filter(with_id(k)).push(x)
    } else {
        r.filter(with_id(k))
    } by {
        front.lemma_filter_push(x, with_id(k));
        if x.gpu_id == k {
            assert forall|i: int| 0 <= i < back.len() implies !with_id(k)(#[trigger] back[i]) by {
                assert(back[i] == r[p + i]);
                assert(lex_lt(x.gpu_id, r[p + i].gpu_id));
                lemma_lex_lt_irreflexive(x.gpu_id);
            }
            lemma_filter_none(back, with_id(k));
            assert(front.push(x).filter(with_id(k)) + back.filter(with_id(k)) =~= front.filter(
                with_id(k),
            ).push(x));
            assert(front.filter(with_id(k)) + back.filter(with_id(k)) =~= front.filter(with_id(k)));
        }
    }
}

/// Among GPUs in canonical order there is a place for `x`: after every GPU
/// whose id is not greater, before every GPU whose id is.
proof fn lemma_insert_point(r: Seq<GpuView>, x: GpuView) -> (p: int)
    requires
        ids_sorted(r),
    ensures
        0 <= p <= r.len(),
        forall|j: int| 0 <= j < p ==> !lex_lt(x.gpu_id, #[trigger] r[j].gpu_id),
        forall|j: int| p <= j < r.len() ==> lex_lt(x.gpu_id, #[trigger] r[j].gpu_id),
    decreases r.len(),
{
    if r.len() == 0 {
        0
    } else {
        let last = (r.len() - 1) as int;
        let front = r.drop_last();
        assert(ids_sorted(front)) by {
            assert forall|i: int, j: int| 0 <= i < j < front.len() implies !lex_lt(
                #[trigger] front[j].gpu_id,
                #[trigger] front[i].gpu_id,
            ) by {
                assert(front[i] == r[i] && front[j] == r[j]);
            }
        }
        if lex_lt(x.gpu_id, r[last].gpu_id) {
            let p = lemma_insert_point(front, x);
            assert forall|j: int| 0 <= j < p implies !lex_lt(x.gpu_id, #[trigger] r[j].gpu_id) by {
                assert(front[j] == r[j]);
            }
            assert forall|j: int| p <= j < r.len() implies lex_lt(x.gpu_id, #[trigger] r[j].gpu_id) by {
                if j < last {
                    assert(front[j] == r[j]);
                }
            }
            p
        } else {
            assert forall|j: int| 0 <= j < r.len() implies !lex_lt(x.gpu_id, #[trigger] r[j].gpu_id) by {
                if j < last && lex_lt(x.gpu_id, r[j].gpu_id) {
                    assert(!lex_lt(r[last].gpu_id, r[j].gpu_id));
                    if r[j].gpu_id != r[last].gpu_id {
                        lemma_lex_lt_total(r[j].gpu_id, r[last].gpu_id);
                        lemma_lex_lt_transitive(x.gpu_id, r[j].gpu_id, r[last].gpu_id);
                    }
                }
            }
            r.len() as int
        }
    }
}

/// Every list of GPUs has a stable sort by id.
proof fn lemma_stable_sort_exists(gs: Seq<GpuView>)
    ensures
        exists|o: Seq<GpuView>| is_stable_sort(o, gs),
    decreases gs.len(),
{
    broadcast use vstd::seq_lib::group_seq_properties;
    if gs.len() == 0 {
        assert(is_stable_sort(gs, gs));
    } else {
        let front = gs.drop_last();
        let x = gs.last();
        lemma_stable_sort_exists(front);
        let o = choose|o: Seq<GpuView>| is_stable_sort(o, front);
        let p = lemma_insert_point(o, x);
        lemma_insert_sorted(o, p, x);
        let w = o.insert(p, x);
        assert(gs =~= front.push(x));
        assert forall|k: Seq<char>| #[trigger] w.filter(with_id(k)) == gs.filter(with_id(k)) by {
            front.lemma_filter_push(x, with_id(k));
            assert(o.filter(with_id(k)) == front.filter(with_id(k)));
        }
        assert(is_stable_sort(w, gs));
    }
}

/// The canonical order is a stable sort of the GPUs.
pub proof fn lemma_sorted_gpus(gs: Seq<GpuView>)
    ensures
        is_stable_sort(sorted_gpus(gs), gs),
{
    lemma_stable_sort_exists(gs);
}

/// Putting GPUs in canonical order twice changes nothing the second time.
pub proof fn law_gpu_order_is_idempotent(gs: Seq<GpuView>)
    ensures
        sorted_gpus(sorted_gpus(gs)) == sorted_gpus(gs),
{
    let s = sorted_gpus(gs);
    lemma_sorted_gpus(gs);
    assert(is_stable_sort(s, s));
    law_gpu_order_is_unique(s, s);
}

/// Where `x` goes among GPUs already in canonical order: after every GPU
/// whose id is not greater than its own.
fn insert_position(r: &Vec<GpuInventory>, x: &GpuInventory) -> (p: usize)
    requires
        ids_sorted(gpu_views(r@)),
    ensures
        p <= r@.len(),
        forall|j: int| 0 <= j < p ==> !lex_lt(x@.gpu_id, #[trigger] gpu_views(r@)[j].gpu_id),
        forall|j: int| p <= j < r@.len() ==> lex_lt(x@.gpu_id, #[trigger] gpu_views(r@)[j].gpu_id),
{
    let ghost v = gpu_views(r@);
    let mut p: usize = 0;
    while p < r.len() && !str_lt(x.gpu_id.as_str(), r[p].gpu_id.as_str())
        invariant
            v == gpu_views(r@),
            p <= r@.len(),
            forall|j: int| 0 <= j < p ==> !lex_lt(x@.gpu_id, #[trigger] v[j].gpu_id),
        decreases r@.len() - p,
    {
        assert(v[p as int] == r@[p as int]@);
        p = p + 1;
    }
    if p < r.len() {
        assert(v[p as int] == r@[p as int]@);
        assert forall|j: int| p <= j < r@.len() implies lex_lt(x@.gpu_id, #[trigger] v[j].gpu_id) by {
            if j > p {
                assert(!lex_lt(v[j].gpu_id, v[p as int].gpu_id));
                if v[j].gpu_id != v[p as int].gpu_id {
                    lemma_lex_lt_total(v[j].gpu_id, v[p as int].gpu_id);
                    lemma_lex_lt_transitive(x@.gpu_id, v[p as int].gpu_id, v[j].gpu_id);
                }
            }
        }
    }
    p
}

/// The GPUs in canonical order (see `is_stable_sort`).
pub fn sort_gpus(g: &Vec<GpuInventory>) -> (r: Vec<GpuInventory>)
    ensures
        is_stable_sort(gpu_views(r@), gpu_views(g@)),
        gpu_views(r@) == sorted_gpus(gpu_views(g@)),
{
    broadcast use vstd::seq_lib::group_seq_properties;
    let mut r: Vec<GpuInventory> = Vec::new();
    let mut i: usize = 0;
    assert(gpu_views(r@) =~= Seq::<GpuView>::empty());
    assert(gpu_views(g@.take(0)) =~= Seq::<GpuView>::empty());
    while i < g.len()
        invariant
            i <= g@.len(),
            is_stable_sort(gpu_views(r@), gpu_views(g@.take(i as int))),
        decreases g@.len() - i,
    {
        let x = g[i].copied();
        let p = insert_position(&r, &x);
        let ghost before = gpu_views(r@);
        proof {
            lemma_insert_sorted(before, p as int, x@);
        }
        r.insert(p, x);
        proof {
            assert(gpu_views(r@) =~= before.insert(p as int, x@));
            let prev = gpu_views(g@.take(i as int));
            assert(gpu_views(g@.take(i + 1)) =~= prev.push(g@[i as int]@));
            assert forall|k: Seq<char>| #[trigger] gpu_views(r@).filter(with_id(k)) == gpu_views(
                g@.take(i + 1),
            ).filter(with_id(k)) by {
                prev.lemma_filter_push(g@[i as int]@, with_id(k));
                assert(before.filter(with_id(k)) == prev.filter(with_id(k)));
            }
        }
        i = i + 1;
    }
    proof {
        assert(g@.take(g@.len() as int) =~= g@);
        law_gpu_order_is_unique(gpu_views(r@), gpu_views(g@));
    }
    r
}

} // verus!
