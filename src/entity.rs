//! The identity table: issues integer identities and recycles released ones
//! last-released-first.
use vstd::prelude::*;

use crate::kinds::{Kind, KindSet};

verus! {

/// The record of one identity: the kinds attached to it, its id (its position
/// in the table) and whether it is currently issued.
#[derive(Clone, PartialEq, Debug)]
pub struct Entity {
    pub type_ids: KindSet,
    pub id: usize,
    pub is_active: bool,
}

/// Whether record `e` answers a query for every kind in `required`.
pub open spec fn matches_query(e: Entity, required: Set<Kind>) -> bool {
    e.is_active && required.subset_of(e.type_ids@)
}

/// The ids of `table`, in increasing order, whose records match `required`.
pub open spec fn query_spec(table: Seq<Entity>, required: Set<Kind>, r: Seq<usize>) -> bool {
    &&& forall|a: int, b: int| 0 <= a < b < r.len() ==> r[a] < r[b]
    &&& forall|a: int| 0 <= a < r.len() ==> r[a] < table.len()
    &&& forall|id: int|
        0 <= id < table.len() ==> (r.contains(id as usize) <==> matches_query(
            #[trigger] table[id],
            required,
        ))
}

/// Every record sits at its own id and holds a well-formed kind set; the
/// released ids are distinct, in range, and are exactly the ids whose records
/// are inactive.
pub open spec fn table_wf(entities: Seq<Entity>, released: Seq<usize>) -> bool {
    &&& forall|i: int|
        0 <= i < entities.len() ==> (#[trigger] entities[i]).id == i && entities[i].type_ids.wf()
    &&& released.no_duplicates()
    &&& forall|j: int| 0 <= j < released.len() ==> #[trigger] released[j] < entities.len()
    &&& forall|i: int|
        0 <= i < entities.len() ==> ((#[trigger] entities[i]).is_active <==> !released.contains(
            i as usize,
        ))
}

/// The table of identity records and the stack of released ids.
pub struct EntityManager {
    active: Vec<Entity>,
    dropped: Vec<usize>,
}

impl EntityManager {
    /// The identity records, indexed by id.
    pub closed spec fn entities(&self) -> Seq<Entity> {
        self.active@
    }

    /// The released ids, the most recently released last.
    pub closed spec fn released(&self) -> Seq<usize> {
        self.dropped@
    }

    /// The table and the release stack are consistent.
    pub open spec fn wf(&self) -> bool {
        table_wf(self.entities(), self.released())
    }

    /// Creates an empty table.
    pub fn new() -> (r: EntityManager)
        ensures
            r.wf(),
            r.entities().len() == 0,
            r.released().len() == 0,
    {
        EntityManager { active: Vec::new(), dropped: Vec::new() }
    }

    /// Issues an identity: the most recently released id when there is one,
    /// else a new record at the end of the table. The record comes back
    /// active with no kinds.
    pub fn activate(&mut self) -> (id: usize)
        requires
            old(self).wf(),
            old(self).entities().len() < usize::MAX,
        ensures
            final(self).wf(),
            old(self).released().len() > 0 ==> {
                &&& id == old(self).released().last()
                &&& final(self).released() == old(self).released().drop_last()
                &&& final(self).entities().len() == old(self).entities().len()
            },
            old(self).released().len() == 0 ==> {
                &&& id == old(self).entities().len()
                &&& final(self).released() == old(self).released()
                &&& final(self).entities().len() == old(self).entities().len() + 1
            },
            final(self).entities()[id as int].is_active,
            final(self).entities()[id as int].id == id,
            final(self).entities()[id as int].type_ids@ == Set::<Kind>::empty(),
            forall|j: int|
                0 <= j < old(self).entities().len() && j != id ==> #[trigger] final(self).entities()[j] == old(self).entities()[j],
    {
        if let Some(id) = self.dropped.pop() {
            proof {
                assert(old(self).dropped@[old(self).dropped@.len() - 1] == id);
                assert forall|j: int| 0 <= j < self.dropped@.len() implies self.dropped@[j]
                    != id by {
                    assert(old(self).dropped@[j] == self.dropped@[j]);
                }
                assert(!self.dropped@.contains(id));
            }
            let e = Entity { type_ids: KindSet::new(), id, is_active: true };
            self.active.set(id, e);
            proof {
                assert forall|i: int| 0 <= i < self.active@.len() implies ((
                #[trigger] self.active@[i]).is_active <==> !self.dropped@.contains(i as usize)) by {
                    if i != id {
                        assert(old(self).dropped@.contains(i as usize) <==> self.dropped@.contains(
                            i as usize,
                        )) by {
                            if old(self).dropped@.contains(i as usize) {
                                let p = choose|p: int|
                                    0 <= p < old(self).dropped@.len() && old(self).dropped@[p]
                                        == i as usize;
                                assert(p != old(self).dropped@.len() - 1);
                                assert(self.dropped@[p] == i as usize);
                            }
                        }
                    }
                }
            }
            return id;
        }
        let id = self.active.len();
        let e = Entity { type_ids: KindSet::new(), id, is_active: true };
        self.active.push(e);
        proof {
            assert(self.dropped@.len() == 0);
            assert(!self.dropped@.contains(id));
        }
        id
    }

    /// Releases `id`: its record becomes inactive and `id` goes on top of the
    /// release stack. An id out of range or already released leaves
    /// everything as it was.
    pub fn drop(&mut self, id: usize)
        requires
            old(self).wf(),
        ensures
            final(self).wf(),
            id < old(self).entities().len() && old(self).entities()[id as int].is_active ==> {
                &&& final(self).released() == old(self).released().push(id)
                &&& final(self).entities().len() == old(self).entities().len()
                &&& !final(self).entities()[id as int].is_active
                &&& final(self).entities()[id as int].id == id
                &&& final(self).entities()[id as int].type_ids == old(self).entities()[id as int].type_ids
                &&& forall|j: int|
                    0 <= j < old(self).entities().len() && j != id ==> #[trigger] final(self).entities()[j] == old(self).entities()[j]
            },
            !(id < old(self).entities().len() && old(self).entities()[id as int].is_active) ==> {
                &&& final(self).released() == old(self).released()
                &&& final(self).entities() == old(self).entities()
            },
    {
        if id < self.active.len() {
            if self.active[id].is_active {
                self.active[id].is_active = false;
                self.dropped.push(id);
                proof {
                    assert forall|a: int, b: int|
                        0 <= a < b < self.dropped@.len() implies self.dropped@[a]
                        != self.dropped@[b] by {
                        if b == self.dropped@.len() - 1 {
                            assert(old(self).dropped@.contains(self.dropped@[a]));
                        }
                    }
                    assert forall|i: int| 0 <= i < self.active@.len() implies ((
                    #[trigger] self.active@[i]).is_active <==> !self.dropped@.contains(
                        i as usize,
                    )) by {
                        if i != id {
                            if self.dropped@.contains(i as usize) {
                                let p = choose|p: int|
                                    0 <= p < self.dropped@.len() && self.dropped@[p] == i as usize;
                                assert(old(self).dropped@[p] == i as usize);
                            }
                            if old(self).dropped@.contains(i as usize) {
                                let p = choose|p: int|
                                    0 <= p < old(self).dropped@.len() && old(self).dropped@[p]
                                        == i as usize;
                                assert(self.dropped@[p] == i as usize);
                            }
                        } else {
                            assert(self.dropped@[self.dropped@.len() - 1] == id);
                        }
                    }
                }
            }
        }
    }

    /// Number of records in the table, released ones included.
    pub fn activated_size(&self) -> (r: usize)
        ensures
            r == self.entities().len(),
    {
        self.active.len()
    }

    /// Whether the table holds no record.
    pub fn is_activated_empty(&self) -> (r: bool)
        ensures
            r == (self.entities().len() == 0),
    {
        self.active.len() == 0
    }

    /// Number of released ids waiting for reuse.
    pub fn deactivated_size(&self) -> (r: usize)
        ensures
            r == self.released().len(),
    {
        self.dropped.len()
    }

    /// Whether no released id waits for reuse.
    pub fn is_deactivated_empty(&self) -> (r: bool)
        ensures
            r == (self.released().len() == 0),
    {
        self.dropped.len() == 0
    }

    /// The id that the next `activate` will reuse, if any.
    pub fn deactive_last(&self) -> (r: Option<usize>)
        ensures
            self.released().len() == 0 ==> r is None,
            self.released().len() > 0 ==> r == Some(self.released().last()),
    {
        if self.dropped.len() == 0 {
            None
        } else {
            Some(self.dropped[self.dropped.len() - 1])
        }
    }

    /// The record of `id`, if `id` is in the table.
    pub fn get(&self, id: usize) -> (r: Option<&Entity>)
        ensures
            id < self.entities().len() ==> r == Some(&self.entities()[id as int]),
            id >= self.entities().len() ==> r is None,
    {
        if id < self.active.len() {
            Some(&self.active[id])
        } else {
            None
        }
    }

    /// The record of `id` for update, if `id` is in the table.
    pub fn get_mut(&mut self, id: usize) -> (r: Option<&mut Entity>)
        ensures
            id < old(self).entities().len() ==> {
                &&& r matches Some(e)
                &&& *e == old(self).entities()[id as int]
                &&& final(self).entities() == old(self).entities().update(id as int, *final(e))
                &&& final(self).released() == old(self).released()
            },
            id >= old(self).entities().len() ==> r is None && *final(self) == *old(self),
    {
        if id < self.active.len() {
            Some(&mut self.active[id])
        } else {
            None
        }
    }

    /// The ids of the active records that carry every kind in `type_ids`,
    /// in increasing order.
    pub fn filter_by_components(&self, type_ids: &KindSet) -> (r: Vec<usize>)
        ensures
            query_spec(self.entities(), type_ids@, r@),
    {
        let mut ids: Vec<usize> = Vec::new();
        let mut i: usize = 0;
        while i < self.active.len()
            invariant
                0 <= i <= self.active@.len(),
                forall|a: int, b: int| 0 <= a < b < ids@.len() ==> ids@[a] < ids@[b],
                forall|a: int| 0 <= a < ids@.len() ==> ids@[a] < i,
                forall|id: int|
                    0 <= id < i ==> (ids@.contains(id as usize) <==> matches_query(
                        #[trigger] self.active@[id],
                        type_ids@,
                    )),
            decreases self.active@.len() - i,
        {
            let e = &self.active[i];
            let hit = e.is_active && type_ids.is_subset(&e.type_ids);
            let ghost before = ids@;
            if hit {
                ids.push(i);
            }
            proof {
                assert forall|id: int| 0 <= id < i + 1 implies (ids@.contains(id as usize)
                    <==> matches_query(#[trigger] self.active@[id], type_ids@)) by {
                    if id < i {
                        if ids@.contains(id as usize) {
                            let p = choose|p: int| 0 <= p < ids@.len() && ids@[p] == id as usize;
                            if p < before.len() {
                                assert(before[p] == id as usize);
                            }
                        }
                        if before.contains(id as usize) {
                            let p = choose|p: int| 0 <= p < before.len() && before[p] == id as usize;
                            assert(ids@[p] == id as usize);
                        }
                    } else {
                        if hit {
                            assert(ids@[ids@.len() - 1] == i);
                        } else {
                            assert(ids@ == before);
                        }
                    }
                }
            }
            i += 1;
        }
        ids
    }
}

} // verus!
