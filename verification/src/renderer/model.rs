//! Models: vertex and index data shared by many instances, each instance
//! reachable by a handle, with the visible instances kept in front.
use std::collections::HashMap;
use vstd::prelude::*;

use crate::renderer::subdivision::{
    add_edge, distinct_edges, edge_position, has_edge, lemma_add_edge, lemma_distinct_edges,
    lemma_distinct_edges_prefix_len, lemma_edge_position, lemma_subdivided_extend,
    lemma_triangle_edges_len, lemma_triangle_edges_prefix, mesh_edges, midpoint_index, same_edge, split_triangle, subdivided,
    triangle_edges, unique_edges,
};
use crate::renderer::RendererError;

verus! {

broadcast use vstd::std_specs::hash::group_hash_axioms;

/// Calls `<[T]>::swap` on a vector: std documents that it swaps the
/// elements at the two positions (and panics when one is out of bounds,
/// which `requires` leaves out).
#[verifier::external_body]
fn swap_elements<T>(v: &mut Vec<T>, a: usize, b: usize)
    requires
        a < old(v)@.len(),
        b < old(v)@.len(),
    ensures
        final(v)@ == old(v)@.update(a as int, old(v)@[b as int]).update(b as int, old(v)@[a as int]),
{
    v.swap(a, b)
}

/// A mesh (vertices and triangle indices) with instances of type `I`.
/// Instances are kept in a vector whose first `fist_invisible` entries are the
/// visible ones; `handles[i]` is the handle of the instance at `i`, and
/// `handle_to_index` maps handles back to positions.
pub struct Model<V, I> {
    vertices: Vec<V>,
    indicies: Vec<u32>,
    handle_to_index: HashMap<usize, usize>,
    handles: Vec<usize>,
    instances: Vec<I>,
    fist_invisible: usize,
    next_handle: usize,
}

impl<V, I> Model<V, I> {
    /// The instances by handle.
    pub closed spec fn instance_map(&self) -> Map<usize, I> {
        Map::new(
            |h: usize| self.handle_to_index@.contains_key(h),
            |h: usize| self.instances@[self.handle_to_index@[h] as int],
        )
    }

    /// The number of visible instances.
    pub closed spec fn visible_count(&self) -> nat {
        self.fist_invisible as nat
    }

    /// The instances, in the order in which they are drawn (visible first).
    pub closed spec fn instance_seq(&self) -> Seq<I> {
        self.instances@
    }

    /// The handle that the next insertion hands out.
    pub closed spec fn next_handle_value(&self) -> usize {
        self.next_handle
    }

    pub closed spec fn vertex_seq(&self) -> Seq<V> {
        self.vertices@
    }

    pub closed spec fn index_seq(&self) -> Seq<u32> {
        self.indicies@
    }

    /// The map from handles to positions.
    pub closed spec fn handle_map(&self) -> Map<usize, usize> {
        self.handle_to_index@
    }

    /// The handle of the instance at each position.
    pub closed spec fn handle_seq(&self) -> Seq<usize> {
        self.handles@
    }

    /// Handles, positions and instances agree: every position holds the
    /// instance of exactly one handle, every handle maps to its position, and
    /// every handle was handed out before `next_handle`.
    pub closed spec fn consistent(&self) -> bool {
        &&& self.handles@.len() == self.instances@.len()
        &&& self.fist_invisible <= self.instances@.len()
        &&& forall|i: int|
            0 <= i < self.handles@.len() ==> #[trigger] self.handle_to_index@.contains_key(
                self.handles@[i],
            ) && self.handle_to_index@[self.handles@[i]] == i
        &&& forall|h: usize|
            #[trigger] self.handle_to_index@.contains_key(h) ==> self.handle_to_index@[h]
                < self.handles@.len() && self.handles@[self.handle_to_index@[h] as int] == h
        &&& forall|i: int| 0 <= i < self.handles@.len() ==> #[trigger] self.handles@[i] < self.next_handle
    }

    /// The state that the public operations keep: consistent, with every
    /// instance visible.
    pub closed spec fn wf(&self) -> bool {
        self.consistent() && self.fist_invisible == self.instances@.len()
    }

    /// A model with the given mesh and no instances.
    pub fn new(vertices: Vec<V>, indicies: Vec<u32>) -> (m: Self)
        ensures
            m.wf(),
            m.instance_map() == Map::<usize, I>::empty(),
            m.visible_count() == 0,
            m.next_handle_value() == 0,
            m.vertex_seq() == vertices@,
            m.index_seq() == indicies@,
    {
        let m = Model {
            vertices,
            indicies,
            handle_to_index: HashMap::new(),
            handles: Vec::new(),
            instances: Vec::new(),
            fist_invisible: 0,
            next_handle: 0,
        };
        assert(m.instance_map() =~= Map::<usize, I>::empty());
        m
    }

    fn get(&self, handle: usize) -> (r: Option<&I>)
        requires
            self.consistent(),
        ensures
            r is Some <==> self.instance_map().contains_key(handle),
            r matches Some(v) ==> *v == self.instance_map()[handle],
    {
        match self.handle_to_index.get(&handle) {
            Some(index) => Some(&self.instances[*index]),
            None => None,
        }
    }

    /// The vertices of the mesh.
    pub fn vertex_list(&self) -> (r: &Vec<V>)
        ensures
            r@ == self.vertex_seq(),
    {
        &self.vertices
    }

    /// The triangle indices of the mesh, three per triangle.
    pub fn index_list(&self) -> (r: &Vec<u32>)
        ensures
            r@ == self.index_seq(),
    {
        &self.indicies
    }

    /// The instance with the given handle, to change in place.
    pub fn get_mut(&mut self, handle: usize) -> (r: Option<&mut I>)
        requires
            old(self).wf(),
        ensures
            final(self).wf(),
            r is Some <==> old(self).instance_map().contains_key(handle),
            r matches Some(v) ==> *v == old(self).instance_map()[handle] && final(self).instance_map()
                == old(self).instance_map().insert(handle, *final(v)),
            r is None ==> final(self).instance_map() == old(self).instance_map(),
            final(self).visible_count() == old(self).visible_count(),
            final(self).next_handle_value() == old(self).next_handle_value(),
    {
        let ghost old_map = self.instance_map();
        match self.handle_to_index.get(&handle) {
            Some(index) => {
                let index = *index;
                let r = &mut self.instances[index];
                Some(r)
            },
            None => None,
        }
    }
}

/// The map after `swap_by_index` exchanged positions `i1` and `i2`, which
/// held handles `h1` and `h2`: the position numbers are entered as keys.
pub open spec fn map_after_swap(
    m: Map<usize, usize>,
    i1: usize,
    i2: usize,
    h1: usize,
    h2: usize,
) -> Map<usize, usize> {
    if i1 == i2 {
        m
    } else {
        m.insert(i1, h2).insert(i2, h1)
    }
}

/// A sequence with the entries at `i` and `j` exchanged.
pub open spec fn swapped<T>(s: Seq<T>, i: int, j: int) -> Seq<T> {
    s.update(i, s[j]).update(j, s[i])
}

impl<V, I> Model<V, I> {
    /// Exchanges the instances (and handles) at two positions and records
    /// the exchange in the handle map with the positions as keys and the
    /// handles as values (so the map is keyed by positions afterwards, not
    /// by handles).
    fn swap_by_index(&mut self, index1: usize, index2: usize)
        requires
            index1 < old(self).handle_seq().len(),
            index2 < old(self).handle_seq().len(),
            old(self).handle_seq().len() == old(self).instance_seq().len(),
        ensures
            final(self).handle_seq() == swapped(old(self).handle_seq(), index1 as int, index2 as int),
            final(self).instance_seq() == swapped(old(self).instance_seq(), index1 as int, index2 as int),
            final(self).handle_map() == map_after_swap(
                old(self).handle_map(),
                index1,
                index2,
                old(self).handle_seq()[index1 as int],
                old(self).handle_seq()[index2 as int],
            ),
            final(self).visible_count() == old(self).visible_count(),
            final(self).next_handle_value() == old(self).next_handle_value(),
            final(self).vertex_seq() == old(self).vertex_seq(),
            final(self).index_seq() == old(self).index_seq(),
    {
        if index1 == index2 {
            assert(swapped(self.handles@, index1 as int, index2 as int) =~= self.handles@);
            assert(swapped(self.instances@, index1 as int, index2 as int) =~= self.instances@);
            return;
        }
        let handle1 = self.handles[index1];
        let handle2 = self.handles[index2];
        swap_elements(&mut self.handles, index1, index2);
        swap_elements(&mut self.instances, index1, index2);
        self.handle_to_index.insert(index1, handle2);
        self.handle_to_index.insert(index2, handle1);
    }

    /// Exchanges the instances of two handles, recording the exchange as
    /// `swap_by_index` does.
    fn swap_by_handle(&mut self, handle1: usize, handle2: usize) -> (r: Result<(), RendererError>)
        requires
            old(self).consistent(),
        ensures
            handle1 == handle2 ==> r is Ok && *final(self) == *old(self),
            handle1 != handle2 && !(old(self).handle_map().contains_key(handle1)
                && old(self).handle_map().contains_key(handle2)) ==> r == Err::<(), RendererError>(
                RendererError::InvalidHandle,
            ) && *final(self) == *old(self),
            handle1 != handle2 && old(self).handle_map().contains_key(handle1)
                && old(self).handle_map().contains_key(handle2) ==> {
                let i1 = old(self).handle_map()[handle1];
                let i2 = old(self).handle_map()[handle2];
                &&& r is Ok
                &&& final(self).handle_seq() == swapped(old(self).handle_seq(), i1 as int, i2 as int)
                &&& final(self).instance_seq() == swapped(old(self).instance_seq(), i1 as int, i2 as int)
                &&& final(self).handle_map() == map_after_swap(old(self).handle_map(), i1, i2, handle1, handle2)
                &&& final(self).visible_count() == old(self).visible_count()
                &&& final(self).next_handle_value() == old(self).next_handle_value()
            },
    {
        if handle1 == handle2 {
            return Ok(());
        }
        let index1 = match self.handle_to_index.get(&handle1) {
            Some(i) => *i,
            None => return Err(RendererError::InvalidHandle),
        };
        let index2 = match self.handle_to_index.get(&handle2) {
            Some(i) => *i,
            None => return Err(RendererError::InvalidHandle),
        };
        swap_elements(&mut self.handles, index1, index2);
        swap_elements(&mut self.instances, index1, index2);
        self.handle_to_index.insert(index1, handle2);
        self.handle_to_index.insert(index2, handle1);
        Ok(())
    }

    /// Whether the instance of `handle` is among the visible ones.
    fn is_visible(&self, handle: usize) -> (r: Result<bool, RendererError>)
        ensures
            !self.handle_map().contains_key(handle) ==> r == Err::<bool, RendererError>(
                RendererError::InvalidHandle,
            ),
            self.handle_map().contains_key(handle) ==> r == Ok::<bool, RendererError>(
                self.handle_map()[handle] < self.visible_count(),
            ),
    {
        match self.handle_to_index.get(&handle) {
            Some(index) => Ok(*index < self.fist_invisible),
            None => Err(RendererError::InvalidHandle),
        }
    }

    /// Moves the instance of `handle` to the visible part: swapped with the
    /// first invisible instance, which then becomes visible.
    fn make_visible(&mut self, handle: usize) -> (r: Result<(), RendererError>)
        requires
            old(self).consistent(),
        ensures
            !old(self).handle_map().contains_key(handle) ==> r == Err::<(), RendererError>(
                RendererError::InvalidHandle,
            ) && *final(self) == *old(self),
            old(self).handle_map().contains_key(handle) && old(self).handle_map()[handle]
                < old(self).visible_count() ==> r is Ok && *final(self) == *old(self),
            old(self).handle_map().contains_key(handle) && old(self).handle_map()[handle]
                >= old(self).visible_count() ==> {
                let i = old(self).handle_map()[handle];
                let f = old(self).visible_count() as usize;
                &&& r is Ok
                &&& final(self).handle_seq() == swapped(old(self).handle_seq(), i as int, f as int)
                &&& final(self).instance_seq() == swapped(old(self).instance_seq(), i as int, f as int)
                &&& final(self).handle_map() == map_after_swap(
                    old(self).handle_map(),
                    i,
                    f,
                    old(self).handle_seq()[i as int],
                    old(self).handle_seq()[f as int],
                )
                &&& final(self).visible_count() == old(self).visible_count() + 1
                &&& final(self).next_handle_value() == old(self).next_handle_value()
                &&& final(self).vertex_seq() == old(self).vertex_seq()
                &&& final(self).index_seq() == old(self).index_seq()
            },
    {
        match self.handle_to_index.get(&handle) {
            Some(index) => {
                let index = *index;
                if index < self.fist_invisible {
                    return Ok(());
                }
                assert(self.handle_to_index@.contains_key(handle));
                let n = self.handles.len();
                assert(index < n);
                let f = self.fist_invisible;
                self.swap_by_index(index, f);
                self.fist_invisible = f + 1;
                Ok(())
            },
            None => Err(RendererError::InvalidHandle),
        }
    }

    /// Moves the instance of `handle` to the invisible part: swapped with the
    /// last visible instance, which then becomes invisible.
    fn make_invisible(&mut self, handle: usize) -> (r: Result<(), RendererError>)
        requires
            old(self).consistent(),
        ensures
            !old(self).handle_map().contains_key(handle) ==> r == Err::<(), RendererError>(
                RendererError::InvalidHandle,
            ) && *final(self) == *old(self),
            old(self).handle_map().contains_key(handle) && old(self).handle_map()[handle]
                >= old(self).visible_count() ==> r is Ok && *final(self) == *old(self),
            old(self).handle_map().contains_key(handle) && old(self).handle_map()[handle]
                < old(self).visible_count() ==> {
                let i = old(self).handle_map()[handle];
                let l = (old(self).visible_count() - 1) as usize;
                &&& r is Ok
                &&& final(self).handle_seq() == swapped(old(self).handle_seq(), i as int, l as int)
                &&& final(self).instance_seq() == swapped(old(self).instance_seq(), i as int, l as int)
                &&& final(self).handle_map() == map_after_swap(
                    old(self).handle_map(),
                    i,
                    l,
                    old(self).handle_seq()[i as int],
                    old(self).handle_seq()[l as int],
                )
                &&& final(self).visible_count() == old(self).visible_count() - 1
                &&& final(self).next_handle_value() == old(self).next_handle_value()
            },
    {
        match self.handle_to_index.get(&handle) {
            Some(index) => {
                let index = *index;
                if index >= self.fist_invisible {
                    return Ok(());
                }
                let l = self.fist_invisible - 1;
                self.swap_by_index(index, l);
                self.fist_invisible = l;
                Ok(())
            },
            None => Err(RendererError::InvalidHandle),
        }
    }

    /// Appends an invisible instance under a new handle and returns the handle.
    fn insert(&mut self, element: I) -> (handle: usize)
        requires
            old(self).consistent(),
            old(self).next_handle_value() < usize::MAX,
        ensures
            handle == old(self).next_handle_value(),
            !old(self).instance_map().contains_key(handle),
            final(self).consistent(),
            final(self).instance_map() == old(self).instance_map().insert(handle, element),
            final(self).instance_seq() == old(self).instance_seq().push(element),
            final(self).handle_seq() == old(self).handle_seq().push(handle),
            final(self).handle_map() == old(self).handle_map().insert(
                handle,
                old(self).instance_seq().len() as usize,
            ),
            final(self).visible_count() == old(self).visible_count(),
            final(self).next_handle_value() == handle + 1,
            final(self).vertex_seq() == old(self).vertex_seq(),
            final(self).index_seq() == old(self).index_seq(),
    {
        let ghost old_self = *self;
        let handle = self.next_handle;
        self.next_handle = handle + 1;
        let index = self.instances.len();
        self.instances.push(element);
        self.handles.push(handle);
        assert(!old_self.handle_to_index@.contains_key(handle)) by {
            if old_self.handle_to_index@.contains_key(handle) {
                let i = old_self.handle_to_index@[handle];
                assert(old_self.handles@[i as int] < old_self.next_handle);
            }
        }
        self.handle_to_index.insert(handle, index);
        assert(self.instance_map() =~= old_self.instance_map().insert(handle, element)) by {
            assert forall|h: usize| #[trigger] self.handle_to_index@.contains_key(h) && h != handle
                implies self.instances@[self.handle_to_index@[h] as int] == old_self.instances@[old_self.handle_to_index@[h] as int] by {
                assert(old_self.handle_to_index@[h] < old_self.handles@.len());
            }
        }
        handle
    }

    /// Appends an instance under a new handle, makes it visible, and returns
    /// the handle.
    pub fn insert_visibly(&mut self, element: I) -> (handle: usize)
        requires
            old(self).wf(),
            old(self).next_handle_value() < usize::MAX,
        ensures
            inserted_visibly(*old(self), *final(self), handle, element),
    {
        let ghost old_self = *self;
        let new_handle = self.insert(element);
        let ghost mid = *self;
        let ghost n = old_self.instances@.len() as int;
        assert(mid.handle_map()[new_handle] == n);
        assert(mid.visible_count() == n);
        assert(swapped(mid.handles@, n, n) =~= mid.handles@);
        assert(swapped(mid.instances@, n, n) =~= mid.instances@);
        let r = self.make_visible(new_handle);
        match r {
            Ok(()) => {},
            Err(_) => {
                assert(false);
            },
        }
        new_handle
    }
}

/// What `insert_visibly` does: the instance is appended, visible, under the
/// next handle, which was not in use; the mesh is unchanged.
pub open spec fn inserted_visibly<V, I>(m0: Model<V, I>, m1: Model<V, I>, handle: usize, element: I) -> bool {
    &&& handle == m0.next_handle_value()
    &&& !m0.instance_map().contains_key(handle)
    &&& m1.wf()
    &&& m1.instance_map() == m0.instance_map().insert(handle, element)
    &&& m1.instance_seq() == m0.instance_seq().push(element)
    &&& m1.handle_seq() == m0.handle_seq().push(handle)
    &&& m1.handle_map() == m0.handle_map().insert(handle, m0.instance_seq().len() as usize)
    &&& m1.visible_count() == m0.visible_count() + 1
    &&& m1.next_handle_value() == handle + 1
    &&& m1.vertex_seq() == m0.vertex_seq()
    &&& m1.index_seq() == m0.index_seq()
}

/// Where `remove` puts things before it pops the last entry: first the
/// instance is swapped with the last visible one (when it is visible), then
/// the first invisible entry is swapped with the last entry. The result holds
/// the handle sequence, the instance sequence, the handle map and the number
/// of visible instances after those two exchanges.
pub open spec fn removal_stages<I>(
    hs: Seq<usize>,
    is: Seq<I>,
    m: Map<usize, usize>,
    f: usize,
    i: usize,
) -> (Seq<usize>, Seq<I>, Map<usize, usize>, usize) {
    let (hs1, is1, m1, f1) = if i < f {
        let l = (f - 1) as usize;
        (
            swapped(hs, i as int, l as int),
            swapped(is, i as int, l as int),
            map_after_swap(m, i, l, hs[i as int], hs[l as int]),
            l,
        )
    } else {
        (hs, is, m, f)
    };
    let n = (hs.len() - 1) as usize;
    (
        swapped(hs1, f1 as int, n as int),
        swapped(is1, f1 as int, n as int),
        map_after_swap(m1, f1, n, hs1[f1 as int], hs1[n as int]),
        f1,
    )
}

/// What `remove` does: an unknown handle is refused and nothing changes;
/// otherwise the entries are moved as `removal_stages` says, the last entry
/// is popped and handed back, and the handle is forgotten.
pub open spec fn removed<V, I>(
    m0: Model<V, I>,
    m1: Model<V, I>,
    handle: usize,
    r: Result<I, RendererError>,
) -> bool {
    &&& !m0.handle_map().contains_key(handle) ==> r == Err::<I, RendererError>(
        RendererError::InvalidHandle,
    ) && m1 == m0
    &&& m0.handle_map().contains_key(handle) ==> {
        let st = removal_stages(
            m0.handle_seq(),
            m0.instance_seq(),
            m0.handle_map(),
            m0.visible_count() as usize,
            m0.handle_map()[handle],
        );
        &&& r == Ok::<I, RendererError>(st.1.last())
        &&& m1.handle_seq() == st.0.drop_last()
        &&& m1.instance_seq() == st.1.drop_last()
        &&& m1.handle_map() == st.2.remove(handle)
        &&& m1.visible_count() == st.3
        &&& m1.next_handle_value() == m0.next_handle_value()
        &&& m1.vertex_seq() == m0.vertex_seq()
        &&& m1.index_seq() == m0.index_seq()
    }
}

impl<V, I> Model<V, I> {
    /// Takes the instance of `handle` out of the model: it is moved to the
    /// end (past the visible ones) and popped, and the handle is forgotten.
    fn remove(&mut self, handle: usize) -> (r: Result<I, RendererError>)
        requires
            old(self).consistent(),
        ensures
            removed(*old(self), *final(self), handle, r),
            old(self).handle_map().contains_key(handle) && old(self).handle_map()[handle]
                < old(self).visible_count() ==> r == Ok::<I, RendererError>(
                old(self).instance_map()[handle],
            ),
    {
        let index = match self.handle_to_index.get(&handle) {
            Some(i) => *i,
            None => return Err(RendererError::InvalidHandle),
        };
        let ghost old_self = *self;
        assert(self.handle_to_index@.contains_key(handle));
        let n = self.instances.len();
        assert(index < n);
        if index < self.fist_invisible {
            let l = self.fist_invisible - 1;
            self.swap_by_index(index, l);
            self.fist_invisible = l;
        }
        let f = self.fist_invisible;
        self.swap_by_index(f, n - 1);
        self.handles.pop();
        self.handle_to_index.remove(&handle);
        match self.instances.pop() {
            Some(inst) => Ok(inst),
            None => {
                assert(false);
                Err(RendererError::InvalidHandle)
            },
        }
    }
}

/// The key under which the midpoint of the directed edge `(a, b)` is kept.
pub open spec fn edge_key(a: u32, b: u32) -> u64 {
    (a as int * 0x1_0000_0000 + b as int) as u64
}

proof fn lemma_edge_key(a: u32, b: u32, c: u32, d: u32)
    ensures
        edge_key(a, b) == edge_key(c, d) <==> (a == c && b == d),
{
    assert(0 <= a as int * 0x1_0000_0000 + b as int <= u64::MAX) by (nonlinear_arith);
    assert(0 <= c as int * 0x1_0000_0000 + d as int <= u64::MAX) by (nonlinear_arith);
    assert(a as int * 0x1_0000_0000 + b as int == c as int * 0x1_0000_0000 + d as int ==> (a == c
        && b == d)) by (nonlinear_arith)
        requires
            b < 0x1_0000_0000,
            d < 0x1_0000_0000,
    ;
}

fn key_of(a: u32, b: u32) -> (k: u64)
    ensures
        k == edge_key(a, b),
{
    (a as u64) * 0x1_0000_0000 + (b as u64)
}

/// The midpoint table agrees with the edge list `ds`: it holds exactly the
/// edges of `ds`, under both directions, each with the index of its new vertex.
pub open spec fn midpoints_agree(m: Map<u64, u32>, ds: Seq<(u32, u32)>, base: int) -> bool {
    &&& forall|x: u32, y: u32|
        #![trigger m.contains_key(edge_key(x, y))]
        #![trigger has_edge(ds, (x, y))]
        m.contains_key(edge_key(x, y)) <==> has_edge(ds, (x, y))
    &&& forall|x: u32, y: u32|
        #[trigger] m.contains_key(edge_key(x, y)) ==> m[edge_key(x, y)] == base + edge_position(
            ds,
            (x, y),
        )
}

/// Where a subdivision stands after the edges `ds` have been handled:
/// `vs` is `orig` followed by one new vertex per edge of `ds`, computed by
/// `midpoint` from the edge's end points, and `m` agrees with `ds`.
pub open spec fn subdivision_state<V, F: Fn(&V, &V) -> V>(
    vs: Seq<V>,
    m: Map<u64, u32>,
    orig: Seq<V>,
    ds: Seq<(u32, u32)>,
    midpoint: F,
) -> bool {
    &&& unique_edges(ds)
    &&& vs.len() == orig.len() + ds.len()
    &&& vs.subrange(0, orig.len() as int) == orig
    &&& forall|j: int|
        0 <= j < ds.len() ==> (#[trigger] ds[j]).0 < orig.len() && ds[j].1 < orig.len()
            && midpoint.ensures((&orig[ds[j].0 as int], &orig[ds[j].1 as int]), vs[orig.len() + j])
    &&& midpoints_agree(m, ds, orig.len() as int)
}

/// The index of the vertex in the middle of the edge `(a, b)`: looked up in
/// the table, or made by `midpoint` and appended (and entered under both
/// directions of the edge).
fn edge_midpoint<V, F: Fn(&V, &V) -> V>(
    vertices: &mut Vec<V>,
    midpoints: &mut HashMap<u64, u32>,
    a: u32,
    b: u32,
    midpoint: &F,
    Ghost(orig): Ghost<Seq<V>>,
    Ghost(ds): Ghost<Seq<(u32, u32)>>,
) -> (m: u32)
    requires
        subdivision_state(old(vertices)@, old(midpoints)@, orig, ds, *midpoint),
        a < orig.len(),
        b < orig.len(),
        orig.len() + add_edge(ds, (a, b)).len() <= u32::MAX + 1,
        forall|x: &V, y: &V| #[trigger] midpoint.requires((x, y)),
    ensures
        subdivision_state(final(vertices)@, final(midpoints)@, orig, add_edge(ds, (a, b)), *midpoint),
        m == midpoint_index(add_edge(ds, (a, b)), orig.len() as int, (a, b)),
        add_edge(ds, (a, b)).subrange(0, ds.len() as int) == ds,
        has_edge(add_edge(ds, (a, b)), (a, b)),
{
    proof {
        lemma_add_edge(ds, (a, b));
    }
    let k = key_of(a, b);
    match midpoints.get(&k) {
        Some(m) => {
            let m = *m;
            proof {
                assert(has_edge(ds, (a, b)));
            }
            return m;
        },
        None => {},
    }
    proof {
        assert(!has_edge(ds, (a, b)));
    }
    let ghost ds2 = ds.push((a, b));
    let n = vertices.len();
    assert(vertices@[a as int] == orig[a as int]);
    assert(vertices@[b as int] == orig[b as int]);
    let v = midpoint(&vertices[a as usize], &vertices[b as usize]);
    let m = n as u32;
    let ghost old_vs = vertices@;
    vertices.push(v);
    let ghost old_m = midpoints@;
    midpoints.insert(k, m);
    let kr = key_of(b, a);
    midpoints.insert(kr, m);
    proof {
        assert(add_edge(ds, (a, b)) == ds2);
        assert(ds2[ds.len() as int] == (a, b));
        lemma_edge_position(ds2, (a, b), ds.len() as int);
        assert(vertices@.subrange(0, orig.len() as int) =~= orig) by {
            assert forall|i: int| 0 <= i < orig.len() implies vertices@[i] == orig[i] by {
                assert(old_vs.subrange(0, orig.len() as int)[i] == orig[i]);
            }
        }
        assert forall|j: int| 0 <= j < ds2.len() implies (#[trigger] ds2[j]).0 < orig.len()
            && ds2[j].1 < orig.len() && midpoint.ensures(
            (&orig[ds2[j].0 as int], &orig[ds2[j].1 as int]),
            vertices@[orig.len() + j],
        ) by {
            if j < ds.len() {
                assert(ds2[j] == ds[j]);
                assert(vertices@[orig.len() + j] == old_vs[orig.len() + j]);
            }
        }
        assert forall|x: u32, y: u32| #[trigger]
            midpoints@.contains_key(edge_key(x, y)) <==> has_edge(ds2, (x, y)) by {
            lemma_edge_key(x, y, a, b);
            lemma_edge_key(x, y, b, a);
            assert(has_edge(ds2, (x, y)) <==> has_edge(ds, (x, y)) || same_edge((a, b), (x, y)));
        }
        assert forall|x: u32, y: u32| #[trigger]
            midpoints@.contains_key(edge_key(x, y)) implies midpoints@[edge_key(x, y)] == orig.len()
            + edge_position(ds2, (x, y)) by {
            lemma_edge_key(x, y, a, b);
            lemma_edge_key(x, y, b, a);
            if same_edge((a, b), (x, y)) {
                lemma_edge_position(ds2, (x, y), ds.len() as int);
            } else {
                assert(old_m.contains_key(edge_key(x, y)));
                assert(has_edge(ds, (x, y)));
                let j = choose|j: int| 0 <= j < ds.len() && same_edge(#[trigger] ds[j], (x, y));
                assert(ds2[j] == ds[j]);
                lemma_edge_position(ds, (x, y), j);
                lemma_edge_position(ds2, (x, y), j);
            }
        }
    }
    m
}

/// The edge list after the three edges of the triangle `(a, b, c)`.
pub open spec fn add_triangle(ds: Seq<(u32, u32)>, a: u32, b: u32, c: u32) -> Seq<(u32, u32)> {
    add_edge(add_edge(add_edge(ds, (a, b)), (b, c)), (c, a))
}

/// Splits the triangle `(a, b, c)`: finds or makes the vertices in the middle
/// of its edges and appends the indices of its four parts to `new_indices`.
fn split_one<V, F: Fn(&V, &V) -> V>(
    vertices: &mut Vec<V>,
    midpoints: &mut HashMap<u64, u32>,
    new_indices: &mut Vec<u32>,
    a: u32,
    b: u32,
    c: u32,
    midpoint: &F,
    Ghost(orig): Ghost<Seq<V>>,
    Ghost(ds): Ghost<Seq<(u32, u32)>>,
)
    requires
        subdivision_state(old(vertices)@, old(midpoints)@, orig, ds, *midpoint),
        a < orig.len(),
        b < orig.len(),
        c < orig.len(),
        orig.len() + add_triangle(ds, a, b, c).len() <= u32::MAX + 1,
        forall|x: &V, y: &V| #[trigger] midpoint.requires((x, y)),
    ensures
        subdivision_state(
            final(vertices)@,
            final(midpoints)@,
            orig,
            add_triangle(ds, a, b, c),
            *midpoint,
        ),
        final(new_indices)@ == old(new_indices)@ + split_triangle(
            a,
            b,
            c,
            add_triangle(ds, a, b, c),
            orig.len() as int,
        ),
        add_triangle(ds, a, b, c).subrange(0, ds.len() as int) == ds,
{
    let ghost d1 = add_edge(ds, (a, b));
    let ghost d2 = add_edge(d1, (b, c));
    let ghost d3 = add_edge(d2, (c, a));
    let ghost base = orig.len() as int;
    proof {
        lemma_add_edge(ds, (a, b));
        lemma_add_edge(d1, (b, c));
        lemma_add_edge(d2, (c, a));
    }
    let mab = edge_midpoint(vertices, midpoints, a, b, midpoint, Ghost(orig), Ghost(ds));
    let mbc = edge_midpoint(vertices, midpoints, b, c, midpoint, Ghost(orig), Ghost(d1));
    let mca = edge_midpoint(vertices, midpoints, c, a, midpoint, Ghost(orig), Ghost(d2));
    proof {
        assert(d3.subrange(0, d1.len() as int) =~= d1) by {
            assert(d3.subrange(0, d2.len() as int) == d2);
            assert(d2.subrange(0, d1.len() as int) == d1);
        }
        assert(d3.subrange(0, ds.len() as int) =~= ds) by {
            assert(d1.subrange(0, ds.len() as int) == ds);
        }
        let j1 = choose|j: int| 0 <= j < d1.len() && same_edge(#[trigger] d1[j], (a, b));
        assert(d3[j1] == d1[j1]);
        lemma_edge_position(d1, (a, b), j1);
        lemma_edge_position(d3, (a, b), j1);
        let j2 = choose|j: int| 0 <= j < d2.len() && same_edge(#[trigger] d2[j], (b, c));
        assert(d3[j2] == d2[j2]);
        lemma_edge_position(d2, (b, c), j2);
        lemma_edge_position(d3, (b, c), j2);
    }
    new_indices.push(mca);
    new_indices.push(a);
    new_indices.push(mab);
    new_indices.push(mab);
    new_indices.push(b);
    new_indices.push(mbc);
    new_indices.push(mbc);
    new_indices.push(c);
    new_indices.push(mca);
    new_indices.push(mab);
    new_indices.push(mbc);
    new_indices.push(mca);
    assert(new_indices@ =~= old(new_indices)@ + split_triangle(a, b, c, d3, base));
}

impl<V, I> Model<V, I> {
    /// Splits every triangle into four: a new vertex is put in the middle of
    /// each edge (one per edge, shared by the triangles that meet there, made
    /// by `midpoint` from the edge's end points in the direction in which the
    /// edge first appears), and each triangle `(a, b, c)` is replaced by
    /// `(ca, a, ab)`, `(ab, b, bc)`, `(bc, c, ca)` and `(ab, bc, ca)`.
    pub fn refine<F: Fn(&V, &V) -> V>(&mut self, midpoint: F)
        requires
            old(self).index_seq().len() % 3 == 0,
            forall|j: int|
                0 <= j < old(self).index_seq().len() ==> #[trigger] old(self).index_seq()[j]
                    < old(self).vertex_seq().len(),
            mesh_edges(old(self).index_seq()).len() > 0 ==> old(self).vertex_seq().len() + mesh_edges(
                old(self).index_seq(),
            ).len() <= u32::MAX + 1,
            forall|x: &V, y: &V| #[trigger] midpoint.requires((x, y)),
        ensures
            ({
                let base = old(self).vertex_seq().len() as int;
                let ds = mesh_edges(old(self).index_seq());
                &&& final(self).index_seq() == subdivided(old(self).index_seq(), ds, base)
                &&& final(self).vertex_seq().len() == base + ds.len()
                &&& final(self).vertex_seq().subrange(0, base) == old(self).vertex_seq()
                &&& forall|j: int|
                    0 <= j < ds.len() ==> midpoint.ensures(
                        (
                            &old(self).vertex_seq()[(#[trigger] ds[j]).0 as int],
                            &old(self).vertex_seq()[ds[j].1 as int],
                        ),
                        final(self).vertex_seq()[base + j],
                    )
            }),
            final(self).instance_seq() == old(self).instance_seq(),
            final(self).handle_seq() == old(self).handle_seq(),
            final(self).handle_map() == old(self).handle_map(),
            final(self).visible_count() == old(self).visible_count(),
            final(self).next_handle_value() == old(self).next_handle_value(),
            old(self).consistent() ==> final(self).consistent(),
            old(self).wf() ==> final(self).wf(),
    {
        let ghost idx = self.indicies@;
        let ghost orig = self.vertices@;
        let ghost te = triangle_edges(idx);
        let mut new_indices: Vec<u32> = Vec::new();
        let mut midpoints: HashMap<u64, u32> = HashMap::new();
        let n = self.indicies.len();
        let mut i: usize = 0;
        proof {
            lemma_triangle_edges_prefix(idx, 0);
            assert(idx.take(0) =~= Seq::<u32>::empty());
            assert(self.vertices@.subrange(0, orig.len() as int) =~= orig);
            assert(midpoints@ =~= Map::<u64, u32>::empty());
        }
        while i < n
            invariant
                n == idx.len(),
                n % 3 == 0,
                i <= n,
                i % 3 == 0,
                self.indicies@ == idx,
                forall|j: int| 0 <= j < idx.len() ==> #[trigger] idx[j] < orig.len(),
                mesh_edges(idx).len() > 0 ==> orig.len() + mesh_edges(idx).len() <= u32::MAX + 1,
                forall|x: &V, y: &V| #[trigger] midpoint.requires((x, y)),
                te == triangle_edges(idx),
                subdivision_state(
                    self.vertices@,
                    midpoints@,
                    orig,
                    distinct_edges(triangle_edges(idx.take(i as int))),
                    midpoint,
                ),
                new_indices@ == subdivided(
                    idx.take(i as int),
                    distinct_edges(triangle_edges(idx.take(i as int))),
                    orig.len() as int,
                ),
                self.instances == old(self).instances,
                self.handles == old(self).handles,
                self.handle_to_index == old(self).handle_to_index,
                self.fist_invisible == old(self).fist_invisible,
                self.next_handle == old(self).next_handle,
            decreases n - i,
        {
            let a = self.indicies[i];
            let b = self.indicies[i + 1];
            let c = self.indicies[i + 2];
            let ghost p = idx.take(i as int);
            let ghost q = idx.take(i + 3);
            let ghost ds = distinct_edges(triangle_edges(p));
            proof {
                assert(q.subrange(0, q.len() - 3) =~= p);
                assert(q[q.len() - 3] == a && q[q.len() - 2] == b && q[q.len() - 1] == c);
                let tq = triangle_edges(q);
                let tp = triangle_edges(p);
                let t1 = tp.push((a, b));
                let t2 = t1.push((b, c));
                let t3 = t2.push((c, a));
                assert(tq =~= t3);
                assert(t3.drop_last() =~= t2);
                assert(t2.drop_last() =~= t1);
                assert(t1.drop_last() =~= tp);
                assert(distinct_edges(t1) == add_edge(ds, (a, b)));
                assert(distinct_edges(t2) == add_edge(distinct_edges(t1), (b, c)));
                assert(distinct_edges(t3) == add_edge(distinct_edges(t2), (c, a)));
                assert(distinct_edges(tq) == add_triangle(ds, a, b, c));
                lemma_triangle_edges_len(idx);
                lemma_triangle_edges_prefix(idx, i + 3);
                lemma_distinct_edges_prefix_len(te, i + 3);
                lemma_distinct_edges(tp);
                lemma_distinct_edges(tq);
                assert(mesh_edges(idx) == distinct_edges(te));
                assert(te.take(i + 3) == tq);
            }
            split_one(
                &mut self.vertices,
                &mut midpoints,
                &mut new_indices,
                a,
                b,
                c,
                &midpoint,
                Ghost(orig),
                Ghost(ds),
            );
            proof {
                let d3 = add_triangle(ds, a, b, c);
                lemma_subdivided_extend(p, ds, d3, orig.len() as int);
            }
            i += 3;
        }
        proof {
            assert(idx.take(n as int) =~= idx);
        }
        self.indicies = new_indices;
    }
}

/// Each instance that `insert_visibly` adds gets a handle of its own: two
/// insertions in a row hand out different handles, and each instance is
/// found under its handle afterwards.
pub proof fn law_insert_visibly_fresh_handles<V, I>(
    m0: Model<V, I>,
    m1: Model<V, I>,
    m2: Model<V, I>,
    h1: usize,
    e1: I,
    h2: usize,
    e2: I,
)
    requires
        inserted_visibly(m0, m1, h1, e1),
        inserted_visibly(m1, m2, h2, e2),
    ensures
        h1 != h2,
        m2.instance_map().contains_key(h1) && m2.instance_map()[h1] == e1,
        m2.instance_map().contains_key(h2) && m2.instance_map()[h2] == e2,
{
}

/// `insert_visibly` adds one visible instance under the next handle and
/// leaves every other instance as it was: under the same handle, with the
/// same value, and as visible as before.
pub proof fn law_insert_visibly_keeps_the_others<V, I>(m0: Model<V, I>, m1: Model<V, I>, h: usize, e: I)
    requires
        m0.wf(),
        inserted_visibly(m0, m1, h, e),
    ensures
        m1.wf(),
        h == m0.next_handle_value(),
        m1.instance_map().contains_key(h) && m1.instance_map()[h] == e,
        m1.handle_map()[h] < m1.visible_count(),
        m1.instance_seq().len() == m0.instance_seq().len() + 1,
        m1.visible_count() == m0.visible_count() + 1,
        forall|g: usize| #[trigger]
            m0.instance_map().contains_key(g) ==> m1.instance_map().contains_key(g)
                && m1.instance_map()[g] == m0.instance_map()[g] && (m1.handle_map()[g]
                < m1.visible_count() <==> m0.handle_map()[g] < m0.visible_count()),
{
    assert forall|g: usize| #[trigger] m0.instance_map().contains_key(g) implies m1.instance_map().contains_key(g)
        && m1.instance_map()[g] == m0.instance_map()[g] && (m1.handle_map()[g] < m1.visible_count()
        <==> m0.handle_map()[g] < m0.visible_count()) by {
        assert(g != h);
        assert(m0.handle_map()[g] < m0.instance_seq().len());
        assert(m1.instance_seq()[m0.handle_map()[g] as int] == m0.instance_seq()[m0.handle_map()[g] as int]);
    }
}

/// Removing the instance that `insert_visibly` has just added hands it back
/// and leaves the model as it was, all instances visible.
pub proof fn law_remove_undoes_insert_visibly<V, I>(
    m0: Model<V, I>,
    m1: Model<V, I>,
    m2: Model<V, I>,
    h: usize,
    e: I,
    r: Result<I, RendererError>,
)
    requires
        m0.wf(),
        inserted_visibly(m0, m1, h, e),
        removed(m1, m2, h, r),
    ensures
        r == Ok::<I, RendererError>(e),
        m2.wf(),
        m2.instance_map() == m0.instance_map(),
        m2.instance_seq() == m0.instance_seq(),
        m2.visible_count() == m0.visible_count(),
{
    let n = m0.instance_seq().len() as int;
    assert(m1.handle_map().contains_key(h));
    assert(m1.handle_map()[h] == n);
    assert(m1.visible_count() == n + 1);
    assert(swapped(m1.handle_seq(), n, n) =~= m1.handle_seq());
    assert(swapped(m1.instance_seq(), n, n) =~= m1.instance_seq());
    assert(m2.instance_seq() =~= m0.instance_seq());
    assert(m2.handle_seq() =~= m0.handle_seq());
    assert(m2.handle_map() =~= m0.handle_map());
    assert(m2.instance_map() =~= m0.instance_map());
}

} // verus!
