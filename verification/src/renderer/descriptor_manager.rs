//! A cache of descriptor sets keyed by their layout and the hash of their
//! contents. Each set
//! belongs to the frame that last used it; when the ring of frames comes
//! round to that frame again, the sets it still holds are given back to be
//! freed.
use std::collections::BTreeMap;
use vstd::prelude::*;

verus! {

broadcast use {vstd::std_specs::btree::group_btree_axioms, vstd::laws_cmp::group_laws_cmp};

/// A cached descriptor set: its key (its layout and the hash of its
/// contents), the frame that last used it, and the set itself.
pub struct DescriptorSetData<S> {
    key: (u64, u64),
    frame_index: u16,
    set: S,
}

/// The descriptor sets in use, by layout handle and content hash, for a
/// ring of `HISTORY_SIZE` frames. `S` is the set handle type.
pub struct DescriptorManager<S, const HISTORY_SIZE: usize> {
    frame_index: u16,
    frame_sets: Vec<Vec<(u64, u64)>>,
    set_cache: BTreeMap<(u64, u64), DescriptorSetData<S>>,
}

/// A cache entry as values: the frame that last used it, and the set.
pub struct CachedSet<S> {
    pub frame: u16,
    pub set: S,
}

impl<S, const HISTORY_SIZE: usize> DescriptorManager<S, HISTORY_SIZE> {
    /// The current frame.
    pub closed spec fn frame(&self) -> u16 {
        self.frame_index
    }

    /// The cached sets by key: layout handle and content hash.
    pub closed spec fn cache(&self) -> Map<(u64, u64), CachedSet<S>> {
        Map::new(
            |h: (u64, u64)| self.set_cache@.contains_key(h),
            |h: (u64, u64)|
                CachedSet {
                    frame: self.set_cache@[h].frame_index,
                    set: self.set_cache@[h].set,
                },
        )
    }

    /// The keys that each frame uses, in the order in which it took them.
    pub closed spec fn frame_lists(&self) -> Seq<Seq<(u64, u64)>> {
        self.frame_sets@.map_values(|v: Vec<(u64, u64)>| v@)
    }

    /// One list per frame; the current frame is in the ring; each cached set
    /// is listed exactly once, under its own frame, and each listed key is
    /// cached.
    pub closed spec fn wf(&self) -> bool {
        &&& 0 < HISTORY_SIZE <= u16::MAX
        &&& self.frame_sets@.len() == HISTORY_SIZE
        &&& self.frame_index < HISTORY_SIZE
        &&& forall|h: (u64, u64)| #[trigger]
            self.set_cache@.contains_key(h) ==> self.set_cache@[h].key == h
                && self.set_cache@[h].frame_index < HISTORY_SIZE
                && self.frame_sets@[self.set_cache@[h].frame_index as int]@.contains(h)
        &&& forall|f: int, i: int|
            0 <= f < HISTORY_SIZE && 0 <= i < self.frame_sets@[f]@.len() ==> {
                let h = #[trigger] self.frame_sets@[f]@[i];
                &&& self.set_cache@.contains_key(h)
                &&& self.set_cache@[h].frame_index == f
            }
        &&& forall|f: int| 0 <= f < HISTORY_SIZE ==> (#[trigger] self.frame_sets@[f])@.no_duplicates()
    }

    /// An empty cache at frame 0.
    pub fn new() -> (m: Self)
        requires
            0 < HISTORY_SIZE <= u16::MAX,
        ensures
            m.wf(),
            m.frame() == 0,
            m.cache() == Map::<(u64, u64), CachedSet<S>>::empty(),
            m.frame_lists() == Seq::new(HISTORY_SIZE as nat, |f: int| Seq::<(u64, u64)>::empty()),
    {
        let mut frame_sets: Vec<Vec<(u64, u64)>> = Vec::new();
        let mut i: usize = 0;
        while i < HISTORY_SIZE
            invariant
                i <= HISTORY_SIZE,
                frame_sets@.len() == i,
                forall|f: int| 0 <= f < i ==> (#[trigger] frame_sets@[f])@.len() == 0,
            decreases HISTORY_SIZE - i,
        {
            frame_sets.push(Vec::new());
            i += 1;
        }
        let m = DescriptorManager { frame_index: 0, frame_sets, set_cache: BTreeMap::new() };
        assert(m.cache() =~= Map::<(u64, u64), CachedSet<S>>::empty());
        assert forall|f: int| 0 <= f < HISTORY_SIZE implies #[trigger] m.frame_lists()[f] =~= Seq::<(u64, u64)>::empty() by {
            assert(m.frame_lists()[f] == m.frame_sets@[f]@);
        }
        assert(m.frame_lists() =~= Seq::new(HISTORY_SIZE as nat, |f: int| Seq::<(u64, u64)>::empty()));
        m
    }
}

/// The frame lists after the set `h` moved from frame `from` to frame `to`.
pub open spec fn moved_lists(ls: Seq<Seq<(u64, u64)>>, from: u16, to: u16, h: (u64, u64)) -> Seq<Seq<(u64, u64)>> {
    if from == to {
        ls
    } else {
        ls.update(from as int, ls[from as int].remove_value(h)).update(to as int, ls[to as int].push(h))
    }
}

/// A cache entry with its frame replaced.
pub open spec fn entry_at_frame<S>(e: CachedSet<S>, frame: u16) -> CachedSet<S> {
    CachedSet { frame, ..e }
}

/// A new cache entry.
pub open spec fn new_entry<S>(frame: u16, set: S) -> CachedSet<S> {
    CachedSet { frame, set }
}

/// In a well-formed cache every cached set is listed under its frame.
pub proof fn reveal_cache_listing<S, const HISTORY_SIZE: usize>(
    m: DescriptorManager<S, HISTORY_SIZE>,
    key: (u64, u64),
)
    requires
        m.wf(),
        m.cache().contains_key(key),
    ensures
        m.cache()[key].frame < HISTORY_SIZE,
        m.frame() < HISTORY_SIZE,
        m.frame_lists().len() == HISTORY_SIZE,
        m.frame_lists()[m.cache()[key].frame as int].contains(key),
{
    assert(m.set_cache@.contains_key(key));
}

/// What `get_descriptor_set` does to the cache: a set cached for the same
/// layout and contents hash is handed back and moves to the current frame;
/// otherwise the newly allocated set is cached under the current frame, and
/// a failed allocation changes nothing.
pub open spec fn got_descriptor_set<S, E, const HISTORY_SIZE: usize>(
    m0: DescriptorManager<S, HISTORY_SIZE>,
    m1: DescriptorManager<S, HISTORY_SIZE>,
    layout: u64,
    hash: u64,
    r: Result<S, E>,
) -> bool {
    let key = (layout, hash);
    &&& m1.wf()
    &&& m1.frame() == m0.frame()
    &&& m0.cache().contains_key(key) ==> {
        &&& r == Ok::<S, E>(m0.cache()[key].set)
        &&& m1.cache() == m0.cache().insert(key, entry_at_frame(m0.cache()[key], m0.frame()))
        &&& m1.frame_lists() == moved_lists(m0.frame_lists(), m0.cache()[key].frame, m0.frame(), key)
    }
    &&& !m0.cache().contains_key(key) ==> match r {
        Ok(s) => {
            &&& m1.cache() == m0.cache().insert(key, new_entry(m0.frame(), s))
            &&& m1.frame_lists() == m0.frame_lists().update(
                m0.frame() as int,
                m0.frame_lists()[m0.frame() as int].push(key),
            )
        },
        Err(_) => {
            &&& m1.cache() == m0.cache()
            &&& m1.frame_lists() == m0.frame_lists()
        },
    }
}

/// What `next_frame` does: the ring moves on by one frame; the sets that
/// the frame entered still holds are dropped from the cache and handed back
/// in the order in which the frame took them; every other set stays.
#[verifier::opaque]
pub open spec fn advanced_frame<S, const HISTORY_SIZE: usize>(
    m0: DescriptorManager<S, HISTORY_SIZE>,
    m1: DescriptorManager<S, HISTORY_SIZE>,
    freed: Seq<S>,
) -> bool {
    &&& m1.wf()
    &&& m1.frame() == (m0.frame() + 1) % (HISTORY_SIZE as int)
    &&& freed == m0.frame_lists()[m1.frame() as int].map_values(|h: (u64, u64)| m0.cache()[h].set)
    &&& m1.frame_lists() == m0.frame_lists().update(m1.frame() as int, Seq::<(u64, u64)>::empty())
    &&& forall|h: (u64, u64)|
        #[trigger] m1.cache().contains_key(h) <==> m0.cache().contains_key(h) && m0.cache()[h].frame
            != m1.frame()
    &&& forall|h: (u64, u64)| #[trigger] m1.cache().contains_key(h) ==> m1.cache()[h] == m0.cache()[h]
}

impl<S: Copy, const HISTORY_SIZE: usize> DescriptorManager<S, HISTORY_SIZE> {
    /// Moves the cached set `key` to the current frame.
    fn refresh_set(&mut self, key: (u64, u64))
        requires
            old(self).wf(),
            old(self).cache().contains_key(key),
        ensures
            final(self).wf(),
            final(self).frame() == old(self).frame(),
            final(self).cache() == old(self).cache().insert(
                key,
                entry_at_frame(old(self).cache()[key], old(self).frame()),
            ),
            final(self).frame_lists() == moved_lists(
                old(self).frame_lists(),
                old(self).cache()[key].frame,
                old(self).frame(),
                key,
            ),
    {
        let ghost old_self = *self;
        let mut data = match self.set_cache.remove(&key) {
            Some(d) => d,
            None => {
                assert(false);
                return;
            },
        };
        let cur = self.frame_index;
        if data.frame_index == cur {
            self.set_cache.insert(key, data);
            proof {
                assert(self.set_cache@ =~= old_self.set_cache@);
                assert(self.cache() =~= old_self.cache().insert(
                    key,
                    entry_at_frame(old_self.cache()[key], old_self.frame()),
                ));
            }
            return;
        }
        let f = data.frame_index as usize;
        let ghost list = self.frame_sets@[f as int]@;
        assert(list.contains(key));
        let mut pos: usize = 0;
        while pos < self.frame_sets[f].len() && (self.frame_sets[f][pos].0 != key.0
            || self.frame_sets[f][pos].1 != key.1)
            invariant
                f < self.frame_sets@.len(),
                self.frame_sets@[f as int]@ == list,
                list.contains(key),
                pos <= list.len(),
                forall|j: int| 0 <= j < pos ==> list[j] != key,
            decreases list.len() - pos,
        {
            pos += 1;
        }
        assert(pos < list.len() && list[pos as int] == key);
        proof {
            list.index_of_first_ensures(key);
            assert(list.index_of_first(key) == Some(pos as int)) by {
                let k = list.index_of_first(key)->0;
                assert(!(k < pos));
                assert(!(pos < k));
            }
        }
        self.frame_sets[f].remove(pos);
        self.frame_sets[cur as usize].push(key);
        data.frame_index = cur;
        self.set_cache.insert(key, data);
        proof {
            let ls = old_self.frame_lists();
            assert(self.frame_sets@[f as int]@ == list.remove_value(key));
            assert(self.frame_lists() =~= moved_lists(ls, f as u16, cur, key));
            assert(self.cache() =~= old_self.cache().insert(
                key,
                entry_at_frame(old_self.cache()[key], old_self.frame()),
            ));
            assert forall|h: (u64, u64)| #[trigger] self.set_cache@.contains_key(h) implies self.set_cache@[h].key
                == h && self.set_cache@[h].frame_index < HISTORY_SIZE && self.frame_sets@[self.set_cache@[
                h].frame_index as int]@.contains(h) by {
                if h != key {
                    let g = old_self.set_cache@[h].frame_index as int;
                    let ol = old_self.frame_sets@[g]@;
                    let k = choose|k: int| 0 <= k < ol.len() && ol[k] == h;
                    if g == f {
                        assert(list.remove(pos as int)[if k < pos { k } else { k - 1 }] == h);
                    } else if g == cur {
                        assert(self.frame_sets@[g]@[k] == h);
                    } else {
                        assert(self.frame_sets@[g]@[k] == h);
                    }
                } else {
                    assert(self.frame_sets@[cur as int]@.last() == key);
                }
            }
            assert forall|g: int, i: int|
                0 <= g < HISTORY_SIZE && 0 <= i < self.frame_sets@[g]@.len() implies {
                let h = #[trigger] self.frame_sets@[g]@[i];
                &&& self.set_cache@.contains_key(h)
                &&& self.set_cache@[h].frame_index == g
            } by {
                let h = self.frame_sets@[g]@[i];
                if g == f {
                    let k = if i < pos { i } else { i + 1 };
                    assert(h == list[k]);
                    assert(k != pos);
                } else if g == cur {
                    if i < self.frame_sets@[g]@.len() - 1 {
                        assert(h == old_self.frame_sets@[g]@[i]);
                        if h == key {
                            assert(old_self.set_cache@[key].frame_index == g);
                        }
                    }
                } else {
                    assert(h == old_self.frame_sets@[g]@[i]);
                    if h == key {
                        assert(old_self.set_cache@[key].frame_index == g);
                    }
                }
            }
            assert forall|g: int| 0 <= g < HISTORY_SIZE implies (#[trigger] self.frame_sets@[g])@.no_duplicates() by {
                let l = self.frame_sets@[g]@;
                if g == cur {
                    let ol = old_self.frame_sets@[g]@;
                    assert(!ol.contains(key)) by {
                        if ol.contains(key) {
                            let k = choose|k: int| 0 <= k < ol.len() && ol[k] == key;
                            assert(old_self.set_cache@[ol[k]].frame_index == g);
                        }
                    }
                    assert forall|i: int, j: int| 0 <= i < l.len() && 0 <= j < l.len() && i != j implies l[i] != l[j] by {
                        if i < ol.len() && j < ol.len() {
                            assert(l[i] == ol[i] && l[j] == ol[j]);
                        } else if i < ol.len() {
                            assert(l[i] == ol[i]);
                        } else {
                            assert(l[j] == ol[j]);
                        }
                    }
                } else if g == f {
                    assert forall|i: int, j: int| 0 <= i < l.len() && 0 <= j < l.len() && i != j implies l[i] != l[j] by {
                        let ki = if i < pos { i } else { i + 1 };
                        let kj = if j < pos { j } else { j + 1 };
                        assert(l[i] == list[ki] && l[j] == list[kj]);
                    }
                }
            }
        }
    }
}

impl<S: Copy, const HISTORY_SIZE: usize> DescriptorManager<S, HISTORY_SIZE> {
    /// The descriptor set with layout `layout` for contents with the given
    /// hash: the one cached for that layout and hash, now used by the
    /// current frame, or else a new one from `allocate` (which makes it with
    /// that layout and writes the contents into it), cached under the current
    /// frame. A failed allocation leaves the cache as it was.
    pub fn get_descriptor_set<E, F: FnOnce() -> Result<S, E>>(
        &mut self,
        layout: u64,
        hash: u64,
        allocate: F,
    ) -> (r: Result<S, E>)
        requires
            old(self).wf(),
            allocate.requires(()),
        ensures
            got_descriptor_set(*old(self), *final(self), layout, hash, r),
            !old(self).cache().contains_key((layout, hash)) ==> match r {
                Ok(s) => allocate.ensures((), Ok::<S, E>(s)),
                Err(e) => allocate.ensures((), Err::<S, E>(e)),
            },
    {
        let ghost old_self = *self;
        let key = (layout, hash);
        match self.set_cache.get(&key) {
            Some(cached) => {
                let set = cached.set;
                self.refresh_set(key);
                return Ok(set);
            },
            None => {},
        }
        let new_set = match allocate() {
            Ok(s) => s,
            Err(e) => return Err(e),
        };
        let cur = self.frame_index;
        self.frame_sets[cur as usize].push(key);
        self.set_cache.insert(
            key,
            DescriptorSetData { key, frame_index: cur, set: new_set },
        );
        proof {
            assert(self.cache() =~= old_self.cache().insert(key, new_entry(cur, new_set)));
            assert(self.frame_lists() =~= old_self.frame_lists().update(
                cur as int,
                old_self.frame_lists()[cur as int].push(key),
            ));
            assert forall|h: (u64, u64)| #[trigger] self.set_cache@.contains_key(h) implies self.set_cache@[h].key
                == h && self.set_cache@[h].frame_index < HISTORY_SIZE && self.frame_sets@[self.set_cache@[
                h].frame_index as int]@.contains(h) by {
                if h != key {
                    let g = old_self.set_cache@[h].frame_index as int;
                    let ol = old_self.frame_sets@[g]@;
                    let k = choose|k: int| 0 <= k < ol.len() && ol[k] == h;
                    assert(self.frame_sets@[g]@[k] == h);
                } else {
                    assert(self.frame_sets@[cur as int]@.last() == key);
                }
            }
            assert forall|g: int, i: int|
                0 <= g < HISTORY_SIZE && 0 <= i < self.frame_sets@[g]@.len() implies {
                let h = #[trigger] self.frame_sets@[g]@[i];
                &&& self.set_cache@.contains_key(h)
                &&& self.set_cache@[h].frame_index == g
            } by {
                if g != cur || i < self.frame_sets@[g]@.len() - 1 {
                    assert(self.frame_sets@[g]@[i] == old_self.frame_sets@[g]@[i]);
                }
            }
            assert forall|g: int| 0 <= g < HISTORY_SIZE implies (#[trigger] self.frame_sets@[g])@.no_duplicates() by {
                let l = self.frame_sets@[g]@;
                if g == cur {
                    let ol = old_self.frame_sets@[g]@;
                    assert(!ol.contains(key)) by {
                        if ol.contains(key) {
                            let k = choose|k: int| 0 <= k < ol.len() && ol[k] == key;
                            assert(old_self.set_cache@.contains_key(ol[k]));
                        }
                    }
                    assert forall|i: int, j: int| 0 <= i < l.len() && 0 <= j < l.len() && i != j implies l[i] != l[j] by {
                        if i < ol.len() && j < ol.len() {
                            assert(l[i] == ol[i] && l[j] == ol[j]);
                        } else if i < ol.len() {
                            assert(l[i] == ol[i]);
                        } else {
                            assert(l[j] == ol[j]);
                        }
                    }
                }
            }
        }
        Ok(new_set)
    }

    /// Advances to the next frame of the ring. The sets that this frame
    /// still holds from its last round are dropped from the cache and
    /// returned, to be freed.
    pub fn next_frame(&mut self) -> (freed: Vec<S>)
        requires
            old(self).wf(),
        ensures
            advanced_frame(*old(self), *final(self), freed@),
    {
        proof {
            reveal(advanced_frame);
        }
        let ghost old_self = *self;
        let size = HISTORY_SIZE as u16;
        assert(size == HISTORY_SIZE);
        let next = (self.frame_index + 1) % size;
        assert(next == (old_self.frame_index + 1) % (HISTORY_SIZE as int));
        assert(next < HISTORY_SIZE);
        self.frame_index = next;
        let f = next as usize;
        let ghost list = self.frame_sets@[f as int]@;
        let mut freed: Vec<S> = Vec::new();
        let mut i: usize = 0;
        while i < self.frame_sets[f].len()
            invariant
                old_self.wf(),
                self.frame_index == next,
                f == next,
                f < HISTORY_SIZE,
                f < self.frame_sets@.len(),
                self.frame_sets@ == old_self.frame_sets@,
                list == self.frame_sets@[f as int]@,
                i <= list.len(),
                freed@ == list.take(i as int).map_values(|h: (u64, u64)| old_self.cache()[h].set),
                forall|h: (u64, u64)|
                    #[trigger] self.set_cache@.contains_key(h) <==> old_self.set_cache@.contains_key(h)
                        && !list.take(i as int).contains(h),
                forall|h: (u64, u64)| #[trigger]
                    self.set_cache@.contains_key(h) ==> self.set_cache@[h] == old_self.set_cache@[h],
            decreases list.len() - i,
        {
            let h = self.frame_sets[f][i];
            let removed = self.set_cache.remove(&h);
            assert(list.take(i + 1) =~= list.take(i as int).push(h));
            match removed {
                Some(d) => {
                    freed.push(d.set);
                },
                None => {
                    proof {
                        assert(old_self.set_cache@.contains_key(h));
                        assert(list.take(i as int).contains(h));
                        let k = choose|k: int| 0 <= k < i && list.take(i as int)[k] == h;
                        assert(list[k] == list[i as int]);
                        assert(false);
                    }
                },
            }
            proof {
                assert(freed@ =~= list.take(i + 1).map_values(|h: (u64, u64)| old_self.cache()[h].set));
                let t1 = list.take(i + 1);
                assert forall|g: (u64, u64)| t1.contains(g) <==> list.take(i as int).contains(g)
                    || g == h by {
                    if t1.contains(g) {
                        let k = choose|k: int| 0 <= k < t1.len() && #[trigger] t1[k] == g;
                        if k < i {
                            assert(list.take(i as int)[k] == g);
                        }
                    }
                    if list.take(i as int).contains(g) {
                        let k = choose|k: int| 0 <= k < i && list.take(i as int)[k] == g;
                        assert(list.take(i + 1)[k] == g);
                    }
                    if g == h {
                        assert(list.take(i + 1)[i as int] == g);
                    }
                }
            }
            i += 1;
        }
        self.frame_sets[f].clear();
        proof {
            assert(list.take(list.len() as int) =~= list);
            assert(self.frame_lists() =~= old_self.frame_lists().update(f as int, Seq::<(u64, u64)>::empty()));
            assert forall|h: (u64, u64)| old_self.set_cache@.contains_key(h) implies (list.contains(h)
                <==> old_self.set_cache@[h].frame_index == f) by {
                if old_self.set_cache@[h].frame_index == f {
                    assert(list.contains(h));
                }
                if list.contains(h) {
                    let k = choose|k: int| 0 <= k < list.len() && list[k] == h;
                    assert(old_self.set_cache@[list[k]].frame_index == f);
                }
            }
            assert forall|g: int, j: int|
                0 <= g < HISTORY_SIZE && 0 <= j < self.frame_sets@[g]@.len() implies {
                let h = #[trigger] self.frame_sets@[g]@[j];
                &&& self.set_cache@.contains_key(h)
                &&& self.set_cache@[h].frame_index == g
            } by {
                assert(g != f);
                assert(self.frame_sets@[g] == old_self.frame_sets@[g]);
                let h = self.frame_sets@[g]@[j];
                assert(h == old_self.frame_sets@[g]@[j]);
                assert(old_self.set_cache@.contains_key(h));
                assert(old_self.set_cache@[h].frame_index == g);
                assert(!list.contains(h)) by {
                    if list.contains(h) {
                        let k = choose|k: int| 0 <= k < list.len() && list[k] == h;
                        assert(old_self.set_cache@[list[k]].frame_index == f);
                    }
                }
                assert(!list.take(list.len() as int).contains(h));
                assert(self.set_cache@.contains_key(h));
            }
            assert forall|h: (u64, u64)| #[trigger] self.set_cache@.contains_key(h) implies self.set_cache@[h].key
                == h && self.set_cache@[h].frame_index < HISTORY_SIZE && self.frame_sets@[self.set_cache@[
                h].frame_index as int]@.contains(h) by {
                let g = old_self.set_cache@[h].frame_index as int;
                assert(g != f);
                assert(self.frame_sets@[g] == old_self.frame_sets@[g]);
            }
            assert forall|g: int| 0 <= g < HISTORY_SIZE implies (#[trigger] self.frame_sets@[g])@.no_duplicates() by {
                if g != f {
                    assert(self.frame_sets@[g] == old_self.frame_sets@[g]);
                }
            }
        }
        freed
    }
}

/// Asking twice in one frame for the same layout and contents hash gives
/// the same set, and the second request changes nothing.
pub proof fn law_same_set_within_frame<S, E, const HISTORY_SIZE: usize>(
    m0: DescriptorManager<S, HISTORY_SIZE>,
    m1: DescriptorManager<S, HISTORY_SIZE>,
    m2: DescriptorManager<S, HISTORY_SIZE>,
    layout: u64,
    hash: u64,
    s: S,
    r2: Result<S, E>,
)
    requires
        got_descriptor_set(m0, m1, layout, hash, Ok::<S, E>(s)),
        got_descriptor_set(m1, m2, layout, hash, r2),
    ensures
        r2 == Ok::<S, E>(s),
        m2.cache() == m1.cache(),
        m2.frame_lists() == m1.frame_lists(),
{
    let key = (layout, hash);
    assert(m1.cache().contains_key(key));
    assert(m1.cache()[key].set == s);
    assert(m1.cache()[key].frame == m1.frame());
    assert(entry_at_frame(m1.cache()[key], m1.frame()) == m1.cache()[key]);
    assert(m2.cache() =~= m1.cache());
}

/// A request for contents with a hash already cached under another layout
/// does not get that set: it gets a set of its own (when the allocation
/// succeeds), and the set of the other layout stays cached as it was.
pub proof fn law_layout_is_part_of_the_key<S, E, const HISTORY_SIZE: usize>(
    m0: DescriptorManager<S, HISTORY_SIZE>,
    m1: DescriptorManager<S, HISTORY_SIZE>,
    layout1: u64,
    layout2: u64,
    hash: u64,
    r: Result<S, E>,
)
    requires
        m0.cache().contains_key((layout1, hash)),
        !m0.cache().contains_key((layout2, hash)),
        got_descriptor_set(m0, m1, layout2, hash, r),
    ensures
        layout1 != layout2,
        m1.cache().contains_key((layout1, hash)),
        m1.cache()[(layout1, hash)] == m0.cache()[(layout1, hash)],
        r matches Ok(s) ==> m1.cache()[(layout2, hash)] == new_entry(m0.frame(), s),
{
}

proof fn lemma_next_frame_index(x: int, n: int)
    requires
        0 <= x < n,
    ensures
        (x + 1) % n == if x + 1 < n {
            x + 1
        } else {
            0
        },
{
    if x + 1 < n {
        vstd::arithmetic::div_mod::lemma_small_mod((x + 1) as nat, n as nat);
    } else {
        vstd::arithmetic::div_mod::lemma_mod_self_0(n);
    }
}

/// One step of the ring, for one cached set: it stays, unchanged, unless the
/// ring enters its frame.
proof fn lemma_step<S, const HISTORY_SIZE: usize>(
    m0: DescriptorManager<S, HISTORY_SIZE>,
    m1: DescriptorManager<S, HISTORY_SIZE>,
    fr: Seq<S>,
    key: (u64, u64),
)
    requires
        advanced_frame(m0, m1, fr),
    ensures
        m1.wf(),
        m1.frame() == (m0.frame() + 1) % (HISTORY_SIZE as int),
        m1.cache().contains_key(key) <==> m0.cache().contains_key(key) && m0.cache()[key].frame
            != m1.frame(),
        m1.cache().contains_key(key) ==> m1.cache()[key] == m0.cache()[key],
        fr == m0.frame_lists()[m1.frame() as int].map_values(|h: (u64, u64)| m0.cache()[h].set),
{
    reveal(advanced_frame);
}

/// The first `i + 1` states of a round: the frame moves on by one each time
/// and the set stays cached, unchanged.
proof fn lemma_survives<S, const HISTORY_SIZE: usize>(
    ms: Seq<DescriptorManager<S, HISTORY_SIZE>>,
    freed: Seq<Seq<S>>,
    key: (u64, u64),
    i: int,
)
    requires
        ms.len() == HISTORY_SIZE + 1,
        freed.len() == HISTORY_SIZE,
        ms[0].wf(),
        ms[0].cache().contains_key(key),
        ms[0].cache()[key].frame == ms[0].frame(),
        forall|k: int| 0 <= k < HISTORY_SIZE ==> advanced_frame(#[trigger] ms[k], ms[k + 1], freed[k]),
        0 <= i < HISTORY_SIZE,
    ensures
        ms[0].frame() + i < HISTORY_SIZE ==> ms[i].frame() == ms[0].frame() + i,
        ms[0].frame() + i >= HISTORY_SIZE ==> ms[i].frame() == ms[0].frame() + i - HISTORY_SIZE,
        ms[i].cache().contains_key(key),
        ms[i].cache()[key] == ms[0].cache()[key],
    decreases i,
{
    reveal_cache_listing(ms[0], key);
    if i > 0 {
        lemma_survives(ms, freed, key, i - 1);
        assert(advanced_frame(ms[i - 1], ms[i], freed[i - 1]));
        lemma_step(ms[i - 1], ms[i], freed[i - 1], key);
        if i > 1 {
            assert(advanced_frame(ms[i - 2], ms[i - 1], freed[i - 2]));
            lemma_step(ms[i - 2], ms[i - 1], freed[i - 2], key);
        }
        reveal_cache_listing(ms[i - 1], key);
        lemma_next_frame_index(ms[i - 1].frame() as int, HISTORY_SIZE as int);
    }
}

/// A set that the current frame uses lives one round of the ring: it stays
/// cached through the next `HISTORY_SIZE - 1` frames and is handed back to
/// be freed when the ring comes back to its frame, if nothing uses it in
/// between. `ms` are the states from one `next_frame` to the next, `freed`
/// what each call handed back.
pub proof fn law_set_lives_one_round<S, const HISTORY_SIZE: usize>(
    ms: Seq<DescriptorManager<S, HISTORY_SIZE>>,
    freed: Seq<Seq<S>>,
    key: (u64, u64),
)
    requires
        ms.len() == HISTORY_SIZE + 1,
        freed.len() == HISTORY_SIZE,
        ms[0].wf(),
        ms[0].cache().contains_key(key),
        ms[0].cache()[key].frame == ms[0].frame(),
        forall|i: int| 0 <= i < HISTORY_SIZE ==> advanced_frame(#[trigger] ms[i], ms[i + 1], freed[i]),
    ensures
        forall|i: int| 0 <= i < HISTORY_SIZE ==> (#[trigger] ms[i]).cache().contains_key(key)
            && ms[i].cache()[key] == ms[0].cache()[key],
        !ms[HISTORY_SIZE as int].cache().contains_key(key),
        freed[HISTORY_SIZE - 1].contains(ms[0].cache()[key].set),
{
    let f0 = ms[0].frame() as int;
    let n = HISTORY_SIZE as int;
    assert forall|i: int| 0 <= i < HISTORY_SIZE implies (#[trigger] ms[i]).cache().contains_key(key)
        && ms[i].cache()[key] == ms[0].cache()[key] by {
        lemma_survives(ms, freed, key, i);
    }
    lemma_survives(ms, freed, key, n - 1);
    assert(advanced_frame(ms[n - 1], ms[n], freed[n - 1]));
    lemma_step(ms[n - 1], ms[n], freed[n - 1], key);
    if n > 1 {
        assert(advanced_frame(ms[n - 2], ms[n - 1], freed[n - 2]));
        lemma_step(ms[n - 2], ms[n - 1], freed[n - 2], key);
    }
    lemma_next_frame_index(ms[n - 1].frame() as int, n);
    assert(ms[n].frame() == f0);
    let m = ms[n - 1];
    let list = m.frame_lists()[f0];
    assert(m.wf());
    assert(list.contains(key)) by {
        reveal_cache_listing(m, key);
    }
    let k = choose|k: int| 0 <= k < list.len() && list[k] == key;
    assert(freed[n - 1][k] == m.cache()[key].set);
}

} // verus!
