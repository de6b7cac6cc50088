//! Splitting every triangle of an index list into four: what the new
//! vertices are (one per edge, shared by the two triangles at that edge) and
//! what the new index list is.
use vstd::prelude::*;

verus! {

/// Two directed edges that join the same pair of vertices.
pub open spec fn same_edge(e: (u32, u32), f: (u32, u32)) -> bool {
    e == f || (e.0 == f.1 && e.1 == f.0)
}

/// Whether `ds` holds the edge `e` in either direction.
pub open spec fn has_edge(ds: Seq<(u32, u32)>, e: (u32, u32)) -> bool {
    exists|j: int| 0 <= j < ds.len() && same_edge(#[trigger] ds[j], e)
}

/// No edge occurs twice in `ds`, in either direction.
pub open spec fn unique_edges(ds: Seq<(u32, u32)>) -> bool {
    forall|i: int, j: int| 0 <= i < j < ds.len() ==> !same_edge(#[trigger] ds[i], #[trigger] ds[j])
}

/// The position of the edge `e` (in either direction) in `ds`.
pub open spec fn edge_position(ds: Seq<(u32, u32)>, e: (u32, u32)) -> int {
    choose|j: int| 0 <= j < ds.len() && same_edge(#[trigger] ds[j], e)
}

/// `ds` with `e` appended unless it already holds that edge.
pub open spec fn add_edge(ds: Seq<(u32, u32)>, e: (u32, u32)) -> Seq<(u32, u32)> {
    if has_edge(ds, e) {
        ds
    } else {
        ds.push(e)
    }
}

/// The edges of `es`, each once, in the order and direction of their first
/// appearance.
pub open spec fn distinct_edges(es: Seq<(u32, u32)>) -> Seq<(u32, u32)>
    decreases es.len(),
{
    if es.len() == 0 {
        Seq::empty()
    } else {
        add_edge(distinct_edges(es.drop_last()), es.last())
    }
}

/// The directed edges of the triangles of an index list, three per
/// triangle `(a, b, c)`: `(a, b)`, `(b, c)`, `(c, a)`.
pub open spec fn triangle_edges(idx: Seq<u32>) -> Seq<(u32, u32)>
    decreases idx.len(),
{
    if idx.len() < 3 {
        Seq::empty()
    } else {
        let n = idx.len() as int;
        let (a, b, c) = (idx[n - 3], idx[n - 2], idx[n - 1]);
        triangle_edges(idx.subrange(0, n - 3)) + seq![(a, b), (b, c), (c, a)]
    }
}

/// The edges of an index list, each once: the new vertex for the edge at
/// position `j` gets the index `base + j`.
pub open spec fn mesh_edges(idx: Seq<u32>) -> Seq<(u32, u32)> {
    distinct_edges(triangle_edges(idx))
}

/// The index of the new vertex on the edge `e`.
pub open spec fn midpoint_index(ds: Seq<(u32, u32)>, base: int, e: (u32, u32)) -> u32 {
    (base + edge_position(ds, e)) as u32
}

/// The four triangles that replace `(a, b, c)`.
pub open spec fn split_triangle(a: u32, b: u32, c: u32, ds: Seq<(u32, u32)>, base: int) -> Seq<u32> {
    let mab = midpoint_index(ds, base, (a, b));
    let mbc = midpoint_index(ds, base, (b, c));
    let mca = midpoint_index(ds, base, (c, a));
    seq![mca, a, mab, mab, b, mbc, mbc, c, mca, mab, mbc, mca]
}

/// The index list with each triangle replaced by its four parts.
pub open spec fn subdivided(idx: Seq<u32>, ds: Seq<(u32, u32)>, base: int) -> Seq<u32>
    decreases idx.len(),
{
    if idx.len() < 3 {
        Seq::empty()
    } else {
        let n = idx.len() as int;
        subdivided(idx.subrange(0, n - 3), ds, base) + split_triangle(
            idx[n - 3],
            idx[n - 2],
            idx[n - 1],
            ds,
            base,
        )
    }
}

/// In a list without repeated edges, an edge's position is the one where it
/// stands.
pub proof fn lemma_edge_position(ds: Seq<(u32, u32)>, e: (u32, u32), j: int)
    requires
        unique_edges(ds),
        0 <= j < ds.len(),
        same_edge(ds[j], e),
    ensures
        edge_position(ds, e) == j,
{
    let k = edge_position(ds, e);
    assert(0 <= k < ds.len() && same_edge(ds[k], e));
    if k < j {
        assert(!same_edge(ds[k], ds[j]));
    } else if j < k {
        assert(!same_edge(ds[j], ds[k]));
    }
}

/// Adding an edge keeps the list free of repeats and every edge where it was.
pub proof fn lemma_add_edge(ds: Seq<(u32, u32)>, e: (u32, u32))
    requires
        unique_edges(ds),
    ensures
        unique_edges(add_edge(ds, e)),
        add_edge(ds, e).subrange(0, ds.len() as int) == ds,
        has_edge(add_edge(ds, e), e),
        forall|f: (u32, u32)| #[trigger] has_edge(add_edge(ds, e), f) <==> has_edge(ds, f) || same_edge(e, f),
{
    let d2 = add_edge(ds, e);
    if has_edge(ds, e) {
        assert(d2.subrange(0, ds.len() as int) =~= ds);
        assert forall|f: (u32, u32)| #[trigger] has_edge(d2, f) <==> has_edge(ds, f) || same_edge(e, f) by {
            if same_edge(e, f) {
                let j = choose|j: int| 0 <= j < ds.len() && same_edge(#[trigger] ds[j], e);
                assert(same_edge(ds[j], f));
            }
        }
    } else {
        assert(d2.subrange(0, ds.len() as int) =~= ds);
        assert(d2[ds.len() as int] == e);
        assert forall|i: int, j: int| 0 <= i < j < d2.len() implies !same_edge(
            #[trigger] d2[i],
            #[trigger] d2[j],
        ) by {
            if j == ds.len() {
                assert(ds[i] == d2[i]);
                if same_edge(d2[i], d2[j]) {
                    assert(same_edge(ds[i], e));
                }
            } else {
                assert(ds[i] == d2[i] && ds[j] == d2[j]);
            }
        }
        assert forall|f: (u32, u32)| #[trigger] has_edge(d2, f) <==> has_edge(ds, f) || same_edge(e, f) by {
            if has_edge(ds, f) {
                let j = choose|j: int| 0 <= j < ds.len() && same_edge(#[trigger] ds[j], f);
                assert(d2[j] == ds[j]);
            }
            if same_edge(e, f) {
                assert(same_edge(d2[ds.len() as int], f));
            }
            if has_edge(d2, f) {
                let j = choose|j: int| 0 <= j < d2.len() && same_edge(#[trigger] d2[j], f);
                if j < ds.len() {
                    assert(d2[j] == ds[j]);
                }
            }
        }
    }
}

/// The distinct edges hold no repeats, and every edge of the input.
pub proof fn lemma_distinct_edges(es: Seq<(u32, u32)>)
    ensures
        unique_edges(distinct_edges(es)),
        forall|j: int| 0 <= j < es.len() ==> has_edge(distinct_edges(es), #[trigger] es[j]),
        distinct_edges(es).len() <= es.len(),
    decreases es.len(),
{
    if es.len() > 0 {
        let p = es.drop_last();
        lemma_distinct_edges(p);
        lemma_add_edge(distinct_edges(p), es.last());
        assert forall|j: int| 0 <= j < es.len() implies has_edge(distinct_edges(es), #[trigger] es[j]) by {
            if j < es.len() - 1 {
                assert(es[j] == p[j]);
                assert(has_edge(distinct_edges(p), p[j]));
            }
        }
    }
}

/// The distinct edges of a prefix are no more than those of the whole.
pub proof fn lemma_distinct_edges_prefix_len(es: Seq<(u32, u32)>, m: int)
    requires
        0 <= m <= es.len(),
    ensures
        distinct_edges(es.take(m)).len() <= distinct_edges(es).len(),
    decreases es.len(),
{
    if m < es.len() {
        assert(es.drop_last().take(m) =~= es.take(m));
        lemma_distinct_edges_prefix_len(es.drop_last(), m);
    } else {
        assert(es.take(m) =~= es);
    }
}

/// Three edges per triangle.
pub proof fn lemma_triangle_edges_len(idx: Seq<u32>)
    requires
        idx.len() % 3 == 0,
    ensures
        triangle_edges(idx).len() == idx.len(),
    decreases idx.len(),
{
    if idx.len() >= 3 {
        lemma_triangle_edges_len(idx.subrange(0, idx.len() - 3));
    }
}

/// The edges of the first triangles are the first edges.
pub proof fn lemma_triangle_edges_prefix(idx: Seq<u32>, i: int)
    requires
        idx.len() % 3 == 0,
        0 <= i <= idx.len(),
        i % 3 == 0,
    ensures
        triangle_edges(idx.take(i)) == triangle_edges(idx).take(i),
    decreases idx.len(),
{
    lemma_triangle_edges_len(idx);
    if i == idx.len() {
        assert(idx.take(i) =~= idx);
        assert(triangle_edges(idx).take(i) =~= triangle_edges(idx));
    } else {
        let n = idx.len() as int;
        let p = idx.subrange(0, n - 3);
        lemma_triangle_edges_prefix(p, i);
        lemma_triangle_edges_len(p);
        assert(p.take(i) =~= idx.take(i));
        assert(triangle_edges(idx).take(i) =~= triangle_edges(p).take(i));
    }
}

/// Splitting the triangles of `idx` looks only at the positions of their
/// edges, so a longer edge list that starts with `ds` gives the same result.
pub proof fn lemma_subdivided_extend(idx: Seq<u32>, ds: Seq<(u32, u32)>, ds2: Seq<(u32, u32)>, base: int)
    requires
        unique_edges(ds2),
        ds.len() <= ds2.len(),
        ds2.subrange(0, ds.len() as int) == ds,
        forall|j: int| 0 <= j < triangle_edges(idx).len() ==> has_edge(ds, #[trigger] triangle_edges(idx)[j]),
    ensures
        subdivided(idx, ds2, base) == subdivided(idx, ds, base),
    decreases idx.len(),
{
    if idx.len() >= 3 {
        let n = idx.len() as int;
        let p = idx.subrange(0, n - 3);
        let (a, b, c) = (idx[n - 3], idx[n - 2], idx[n - 1]);
        let te = triangle_edges(idx);
        let tp = triangle_edges(p);
        assert(te == tp + seq![(a, b), (b, c), (c, a)]);
        assert forall|j: int| 0 <= j < tp.len() implies has_edge(ds, #[trigger] tp[j]) by {
            assert(te[j] == tp[j]);
        }
        lemma_subdivided_extend(p, ds, ds2, base);
        assert(unique_edges(ds)) by {
            assert forall|i: int, j: int| 0 <= i < j < ds.len() implies !same_edge(
                #[trigger] ds[i],
                #[trigger] ds[j],
            ) by {
                assert(ds[i] == ds2[i] && ds[j] == ds2[j]);
            }
        }
        assert forall|e: (u32, u32)| has_edge(ds, e) implies edge_position(ds2, e) == edge_position(ds, e) by {
            let j = choose|j: int| 0 <= j < ds.len() && same_edge(#[trigger] ds[j], e);
            assert(ds2[j] == ds[j]);
            lemma_edge_position(ds, e, j);
            lemma_edge_position(ds2, e, j);
        }
        assert(te[tp.len() as int] == (a, b));
        assert(te[tp.len() as int + 1] == (b, c));
        assert(te[tp.len() as int + 2] == (c, a));
    }
}

/// Splitting with an edge list that holds every edge of `idx` gives four
/// triangles per triangle, each index naming an old vertex or a new one.
proof fn lemma_subdivided_in_range(idx: Seq<u32>, ds: Seq<(u32, u32)>, base: int)
    requires
        idx.len() % 3 == 0,
        0 <= base,
        ds.len() > 0 ==> base + ds.len() <= u32::MAX + 1,
        forall|j: int| 0 <= j < idx.len() ==> #[trigger] idx[j] < base,
        forall|j: int| 0 <= j < triangle_edges(idx).len() ==> has_edge(ds, #[trigger] triangle_edges(idx)[j]),
    ensures
        subdivided(idx, ds, base).len() == 4 * idx.len(),
        forall|j: int|
            0 <= j < subdivided(idx, ds, base).len() ==> #[trigger] subdivided(idx, ds, base)[j] < base
                + ds.len(),
    decreases idx.len(),
{
    if idx.len() >= 3 {
        let n = idx.len() as int;
        let p = idx.subrange(0, n - 3);
        let (a, b, c) = (idx[n - 3], idx[n - 2], idx[n - 1]);
        let te = triangle_edges(idx);
        let tp = triangle_edges(p);
        assert(te == tp + seq![(a, b), (b, c), (c, a)]);
        assert forall|j: int| 0 <= j < tp.len() implies has_edge(ds, #[trigger] tp[j]) by {
            assert(te[j] == tp[j]);
        }
        lemma_subdivided_in_range(p, ds, base);
        assert(te[tp.len() as int] == (a, b));
        assert(te[tp.len() as int + 1] == (b, c));
        assert(te[tp.len() as int + 2] == (c, a));
        assert(has_edge(ds, (a, b)) && has_edge(ds, (b, c)) && has_edge(ds, (c, a)));
        let pab = edge_position(ds, (a, b));
        let pbc = edge_position(ds, (b, c));
        let pca = edge_position(ds, (c, a));
        assert(0 <= pab < ds.len() && 0 <= pbc < ds.len() && 0 <= pca < ds.len());
        let sp = subdivided(p, ds, base);
        let st = split_triangle(a, b, c, ds, base);
        assert(subdivided(idx, ds, base) == sp + st);
        assert(a < base && b < base && c < base) by {
            assert(idx[n - 3] < base);
            assert(idx[n - 2] < base);
            assert(idx[n - 1] < base);
        }
        assert forall|j: int| 0 <= j < st.len() implies #[trigger] st[j] < base + ds.len() by {}
        assert forall|j: int| 0 <= j < sp.len() + st.len() implies #[trigger] (sp + st)[j] < base
            + ds.len() by {
            if j < sp.len() {
                assert((sp + st)[j] == sp[j]);
            } else {
                assert((sp + st)[j] == st[j - sp.len()]);
            }
        }
    }
}

/// Refining keeps a valid mesh valid, so it can be refined again: the index
/// list still has three indices per triangle (four times as many as
/// before), and every index names one of the old vertices or one of the
/// new ones (one per edge).
pub proof fn law_refined_indices_stay_in_range(idx: Seq<u32>, base: int)
    requires
        idx.len() % 3 == 0,
        0 <= base,
        forall|j: int| 0 <= j < idx.len() ==> #[trigger] idx[j] < base,
        mesh_edges(idx).len() > 0 ==> base + mesh_edges(idx).len() <= u32::MAX + 1,
    ensures
        subdivided(idx, mesh_edges(idx), base).len() == 4 * idx.len(),
        forall|j: int|
            0 <= j < subdivided(idx, mesh_edges(idx), base).len() ==> #[trigger] subdivided(
                idx,
                mesh_edges(idx),
                base,
            )[j] < base + mesh_edges(idx).len(),
{
    lemma_distinct_edges(triangle_edges(idx));
    lemma_subdivided_in_range(idx, mesh_edges(idx), base);
}

/// The triangles on the two sides of an edge share the new vertex on it:
/// the edge gives the same midpoint whichever way round it is walked.
pub proof fn law_shared_edge_midpoint(idx: Seq<u32>, base: int, a: u32, b: u32)
    requires
        has_edge(mesh_edges(idx), (a, b)),
    ensures
        midpoint_index(mesh_edges(idx), base, (a, b)) == midpoint_index(mesh_edges(idx), base, (b, a)),
{
    let ds = mesh_edges(idx);
    lemma_distinct_edges(triangle_edges(idx));
    let j = choose|j: int| 0 <= j < ds.len() && same_edge(#[trigger] ds[j], (a, b));
    lemma_edge_position(ds, (a, b), j);
    lemma_edge_position(ds, (b, a), j);
}

} // verus!
