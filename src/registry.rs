//! The registry: the identity table and one column per registered kind, kept
//! aligned with each other.
use vstd::prelude::*;

use crate::component_store::{ComponentStore, VecStore};
use crate::entity::{query_spec, table_wf, Entity, EntityManager};
use crate::entity_builder::EntityBuilder;
use crate::kinds::{lemma_index_of_unique, Kind, KindSet};
use crate::query::QueryBuilder;

verus! {

/// A column of `n` empty slots.
pub open spec fn empty_column<V>(n: nat) -> Seq<Option<V>> {
    Seq::new(n, |i: int| None)
}

/// `col` with slot `id` emptied, or with an empty slot appended when `id`
/// is one past its end.
pub open spec fn slot_emptied<V>(col: Seq<Option<V>>, id: usize) -> Seq<Option<V>> {
    if id < col.len() {
        col.update(id as int, None)
    } else {
        col.push(None)
    }
}

/// Every column of `r` has exactly one slot per record of the table.
pub open spec fn aligned<V>(r: Registry<V>) -> bool {
    forall|k: Kind| #[trigger]
        r.columns().contains_key(k) ==> r.columns()[k].len() == r.entities().len()
}

/// `new` is `old` after `kind` was given a new column of empty slots.
pub open spec fn registered<V>(old: Registry<V>, new: Registry<V>, kind: Kind) -> bool {
    &&& new.columns() == old.columns().insert(kind, empty_column(old.entities().len()))
    &&& new.entities() == old.entities()
    &&& new.released() == old.released()
}

/// `new` is `old` after issuing identity `id`: the most recently released
/// id when there is one, else a new one at the end; its record is active and
/// empty, and every column has slot `id` emptied or appended.
pub open spec fn issued<V>(old: Registry<V>, new: Registry<V>, id: usize) -> bool {
    &&& old.released().len() > 0 ==> {
        &&& id == old.released().last()
        &&& new.released() == old.released().drop_last()
        &&& new.entities().len() == old.entities().len()
    }
    &&& old.released().len() == 0 ==> {
        &&& id == old.entities().len()
        &&& new.released() == old.released()
        &&& new.entities().len() == old.entities().len() + 1
    }
    &&& new.entities()[id as int].is_active
    &&& new.entities()[id as int].id == id
    &&& new.entities()[id as int].type_ids@ == Set::<Kind>::empty()
    &&& forall|j: int|
        0 <= j < old.entities().len() && j != id ==> #[trigger] new.entities()[j]
            == old.entities()[j]
    &&& new.columns().dom() == old.columns().dom()
    &&& forall|k: Kind| #[trigger]
        new.columns().contains_key(k) ==> new.columns()[k] == slot_emptied(old.columns()[k], id)
}

/// `new` is `old` after `value` went into slot `id` of the column of `kind`,
/// the column being created first when `kind` had none.
pub open spec fn attached<V>(old: Registry<V>, new: Registry<V>, id: usize, kind: Kind, value: V) -> bool {
    let col = if old.columns().contains_key(kind) {
        old.columns()[kind]
    } else {
        empty_column(old.entities().len())
    };
    &&& new.entities() == old.entities()
    &&& new.released() == old.released()
    &&& new.columns() == old.columns().insert(kind, col.update(id as int, Some(value)))
}

/// `new` is `old` after the record of `id` was given the kinds `kinds`.
pub open spec fn committed<V>(old: Registry<V>, new: Registry<V>, id: usize, kinds: Set<Kind>) -> bool {
    &&& new.columns() == old.columns()
    &&& new.released() == old.released()
    &&& new.entities().len() == old.entities().len()
    &&& new.entities()[id as int].type_ids@ == kinds
    &&& new.entities()[id as int].id == old.entities()[id as int].id
    &&& new.entities()[id as int].is_active == old.entities()[id as int].is_active
    &&& forall|j: int|
        0 <= j < old.entities().len() && j != id ==> #[trigger] new.entities()[j]
            == old.entities()[j]
}

/// `new` is `old` after releasing `id`. An active id has every column's slot
/// emptied, its record made inactive and goes on top of the release stack;
/// any other id changes nothing.
pub open spec fn withdrawn<V>(old: Registry<V>, new: Registry<V>, id: usize) -> bool {
    if id < old.entities().len() && old.entities()[id as int].is_active {
        &&& new.released() == old.released().push(id)
        &&& new.entities().len() == old.entities().len()
        &&& !new.entities()[id as int].is_active
        &&& new.entities()[id as int].id == id
        &&& new.entities()[id as int].type_ids == old.entities()[id as int].type_ids
        &&& forall|j: int|
            0 <= j < old.entities().len() && j != id ==> #[trigger] new.entities()[j]
                == old.entities()[j]
        &&& new.columns().dom() == old.columns().dom()
        &&& forall|k: Kind| #[trigger]
            new.columns().contains_key(k) ==> new.columns()[k] == old.columns()[k].update(
                id as int,
                None,
            )
    } else {
        &&& new.released() == old.released()
        &&& new.entities() == old.entities()
        &&& new.columns() == old.columns()
    }
}

/// The identity table and the columns of the registered kinds.
pub struct Registry<V> {
    kinds: Vec<Kind>,
    components: Vec<VecStore<V>>,
    entities: EntityManager,
}

impl<V> Registry<V> {
    /// The column of each registered kind.
    pub closed spec fn columns(&self) -> Map<Kind, Seq<Option<V>>> {
        Map::new(
            |k: Kind| self.kinds@.contains(k),
            |k: Kind| self.components@[self.kinds@.index_of(k)]@,
        )
    }

    /// The identity records, indexed by id.
    pub closed spec fn entities(&self) -> Seq<Entity> {
        self.entities.entities()
    }

    /// The released ids, the most recently released last.
    pub closed spec fn released(&self) -> Seq<usize> {
        self.entities.released()
    }

    /// The columns line up with the registered kinds and with the table.
    pub closed spec fn layout_wf(&self) -> bool {
        &&& self.entities.wf()
        &&& self.kinds@.no_duplicates()
        &&& self.kinds@.len() == self.components@.len()
        &&& forall|p: int|
            0 <= p < self.components@.len() ==> (#[trigger] self.components@[p])@.len()
                == self.entities.entities().len()
    }

    /// The identity table is consistent, and every column has exactly one
    /// slot per record of the table.
    pub open spec fn wf(&self) -> bool {
        &&& self.layout_wf()
        &&& table_wf(self.entities(), self.released())
        &&& aligned(*self)
    }

    proof fn lemma_column_at(&self, p: int)
        requires
            self.kinds@.no_duplicates(),
            self.kinds@.len() == self.components@.len(),
            0 <= p < self.kinds@.len(),
        ensures
            self.columns().contains_key(self.kinds@[p]),
            self.columns()[self.kinds@[p]] == self.components@[p]@,
    {
        lemma_index_of_unique(self.kinds@, p);
    }

    proof fn lemma_wf(&self)
        requires
            self.layout_wf(),
        ensures
            self.wf(),
    {
        assert forall|k: Kind| #[trigger] self.columns().contains_key(k) implies self.columns()[k].len()
            == self.entities().len() by {
            let p = self.kinds@.index_of(k);
            assert(self.kinds@.contains(k));
        }
    }

    /// Creates a registry with no identities and no kinds.
    pub fn new() -> (r: Registry<V>)
        ensures
            r.wf(),
            r.columns() == Map::<Kind, Seq<Option<V>>>::empty(),
            r.entities().len() == 0,
            r.released().len() == 0,
    {
        let r = Registry { kinds: Vec::new(), components: Vec::new(), entities: EntityManager::new() };
        proof {
            r.lemma_wf();
            assert(r.columns() =~= Map::<Kind, Seq<Option<V>>>::empty());
        }
        r
    }

    fn find_kind(&self, kind: Kind) -> (r: Option<usize>)
        ensures
            r matches Some(p) ==> p < self.kinds@.len() && self.kinds@[p as int] == kind,
            r is None ==> !self.kinds@.contains(kind),
    {
        let mut i: usize = 0;
        while i < self.kinds.len()
            invariant
                0 <= i <= self.kinds@.len(),
                forall|j: int| 0 <= j < i ==> self.kinds@[j] != kind,
            decreases self.kinds@.len() - i,
        {
            if self.kinds[i] == kind {
                return Some(i);
            }
            i += 1;
        }
        None
    }

    /// Whether `kind` has a column.
    pub fn has_component(&self, kind: Kind) -> (r: bool)
        ensures
            r == self.columns().contains_key(kind),
    {
        self.find_kind(kind).is_some()
    }

    /// Gives `kind` a new column with one empty slot per record of the
    /// table, in place of any column it had.
    pub fn register_component(&mut self, kind: Kind)
        requires
            old(self).wf(),
        ensures
            final(self).wf(),
            registered(*old(self), *final(self), kind),
    {
        let mut comps: VecStore<V> = VecStore::new();
        if !self.entities.is_activated_empty() {
            comps.resize_to_nones(self.entities.activated_size());
        }
        assert(comps@ =~= empty_column(self.entities().len()));
        let ghost fresh = comps@;
        match self.find_kind(kind) {
            Some(p) => {
                self.components.set(p, comps);
                proof {
                    assert forall|k: Kind|
                        #[trigger] self.columns().contains_key(k) && k != kind implies self.columns()[k]
                        == old(self).columns()[k] by {
                        let q = self.kinds@.index_of(k);
                        assert(self.kinds@.contains(k));
                        assert(q != p);
                    }
                    self.lemma_column_at(p as int);
                    assert(self.columns() =~= old(self).columns().insert(kind, fresh));
                }
            },
            None => {
                self.kinds.push(kind);
                self.components.push(comps);
                proof {
                    let n = self.kinds@.len() - 1;
                    assert forall|a: int, b: int|
                        0 <= a < b < self.kinds@.len() implies self.kinds@[a] != self.kinds@[b] by {
                        if b == n {
                            assert(old(self).kinds@.contains(self.kinds@[a]));
                        }
                    }
                    assert forall|k: Kind|
                        #[trigger] old(self).columns().contains_key(k) implies self.columns().contains_key(k)
                        && self.columns()[k] == old(self).columns()[k] by {
                        let q = old(self).kinds@.index_of(k);
                        assert(old(self).kinds@.contains(k));
                        assert(self.kinds@[q] == k);
                        self.lemma_column_at(q);
                    }
                    self.lemma_column_at(n);
                    assert forall|k: Kind| #[trigger] self.columns().contains_key(k) implies k == kind
                        || old(self).columns().contains_key(k) by {
                        let q = choose|q: int| 0 <= q < self.kinds@.len() && self.kinds@[q] == k;
                        if q < n {
                            assert(old(self).kinds@[q] == k);
                        }
                    }
                    assert(self.columns() =~= old(self).columns().insert(kind, fresh));
                }
            },
        }
        proof {
            self.lemma_wf();
        }
    }

    /// Issues an identity and empties or appends its slot in every column.
    pub(crate) fn issue(&mut self) -> (id: usize)
        requires
            old(self).wf(),
            old(self).entities().len() < usize::MAX,
        ensures
            final(self).wf(),
            issued(*old(self), *final(self), id),
    {
        let reuse = !self.entities.is_deactivated_empty();
        let id = self.entities.activate();
        let ghost ents = self.entities;
        let mut i: usize = 0;
        while i < self.components.len()
            invariant
                self.entities == ents,
                self.kinds == old(self).kinds,
                self.components@.len() == old(self).components@.len(),
                0 <= i <= self.components@.len(),
                reuse ==> id < old(self).entities().len(),
                !reuse ==> id == old(self).entities().len(),
                forall|p: int|
                    0 <= p < old(self).components@.len() ==> (#[trigger] old(
                        self,
                    ).components@[p])@.len() == old(self).entities().len(),
                forall|p: int|
                    0 <= p < i ==> (#[trigger] self.components@[p])@ == slot_emptied(
                        old(self).components@[p]@,
                        id,
                    ),
                forall|p: int|
                    i <= p < self.components@.len() ==> #[trigger] self.components@[p] == old(
                        self,
                    ).components@[p],
            decreases self.components@.len() - i,
        {
            if reuse {
                self.components[i].set_none(id);
            } else {
                self.components[i].push_none();
            }
            i += 1;
        }
        proof {
            if reuse {
                assert(old(self).released().contains(id));
            }
            assert forall|p: int| 0 <= p < self.components@.len() implies (
            #[trigger] self.components@[p])@.len() == self.entities.entities().len() by {
                assert(old(self).components@[p]@.len() == old(self).entities().len());
            }
            self.lemma_wf();
            assert(self.columns().dom() =~= old(self).columns().dom());
            assert forall|k: Kind| #[trigger] self.columns().contains_key(k) implies self.columns()[k]
                == slot_emptied(old(self).columns()[k], id) by {
                assert(self.kinds@.contains(k));
            }
        }
        id
    }

    /// Puts `value` into slot `id` of the column of `kind`, creating that
    /// column first when `kind` has none.
    pub(crate) fn attach(&mut self, id: usize, kind: Kind, value: V)
        requires
            old(self).wf(),
            id < old(self).entities().len(),
        ensures
            final(self).wf(),
            attached(*old(self), *final(self), id, kind, value),
    {
        if !self.has_component(kind) {
            self.register_component(kind);
        }
        let ghost mid = *self;
        assert(self.columns().contains_key(kind));
        assert(self.kinds@.contains(kind));
        let p = match self.find_kind(kind) {
            Some(p) => p,
            None => {
                return;
            },
        };
        proof {
            mid.lemma_column_at(p as int);
        }
        self.components[p].set(id, value);
        proof {
            assert forall|k: Kind|
                #[trigger] self.columns().contains_key(k) && k != kind implies self.columns()[k]
                == mid.columns()[k] by {
                let q = self.kinds@.index_of(k);
                assert(self.kinds@.contains(k));
                assert(q != p);
            }
            self.lemma_column_at(p as int);
            let col = if old(self).columns().contains_key(kind) {
                old(self).columns()[kind]
            } else {
                empty_column(old(self).entities().len())
            };
            assert(mid.columns()[kind] == col);
            assert(self.columns() =~= old(self).columns().insert(kind, col.update(id as int, Some(value))));
            assert forall|q: int| 0 <= q < self.components@.len() implies (
            #[trigger] self.components@[q])@.len() == self.entities.entities().len() by {
                assert(mid.components@[q]@.len() == mid.entities.entities().len());
            }
            self.lemma_wf();
        }
    }

    /// Gives the record of `id` the kinds of `kinds`.
    pub(crate) fn commit(&mut self, id: usize, kinds: &KindSet)
        requires
            old(self).wf(),
            id < old(self).entities().len(),
            kinds.wf(),
        ensures
            final(self).wf(),
            committed(*old(self), *final(self), id, kinds@),
    {
        let copy = kinds.copy_set();
        match self.entities.get_mut(id) {
            Some(e) => {
                e.type_ids = copy;
            },
            None => {},
        }
        proof {
            self.lemma_wf();
        }
    }

    /// Releases `id`: when it is active, every column's slot `id` is emptied,
    /// its record made inactive and `id` put on top of the release stack.
    /// Any other id changes nothing.
    pub fn release_entity(&mut self, id: usize)
        requires
            old(self).wf(),
        ensures
            final(self).wf(),
            withdrawn(*old(self), *final(self), id),
    {
        let live = match self.entities.get(id) {
            Some(e) => e.is_active,
            None => false,
        };
        if !live {
            return;
        }
        let mut i: usize = 0;
        while i < self.components.len()
            invariant
                self.entities == old(self).entities,
                self.kinds == old(self).kinds,
                self.components@.len() == old(self).components@.len(),
                0 <= i <= self.components@.len(),
                id < old(self).entities().len(),
                forall|p: int|
                    0 <= p < old(self).components@.len() ==> (#[trigger] old(
                        self,
                    ).components@[p])@.len() == old(self).entities().len(),
                forall|p: int|
                    0 <= p < i ==> (#[trigger] self.components@[p])@ == old(
                        self,
                    ).components@[p]@.update(id as int, None),
                forall|p: int|
                    i <= p < self.components@.len() ==> #[trigger] self.components@[p] == old(
                        self,
                    ).components@[p],
            decreases self.components@.len() - i,
        {
            self.components[i].drop(id);
            i += 1;
        }
        self.entities.drop(id);
        proof {
            assert forall|p: int| 0 <= p < self.components@.len() implies (
            #[trigger] self.components@[p])@.len() == self.entities.entities().len() by {
                assert(old(self).components@[p]@.len() == old(self).entities().len());
            }
            self.lemma_wf();
            assert(self.columns().dom() =~= old(self).columns().dom());
            assert forall|k: Kind| #[trigger] self.columns().contains_key(k) implies self.columns()[k]
                == old(self).columns()[k].update(id as int, None) by {
                assert(self.kinds@.contains(k));
            }
        }
    }

    /// The column of `kind`, if it has one.
    pub fn get_components(&self, kind: Kind) -> (r: Option<&VecStore<V>>)
        requires
            self.wf(),
        ensures
            self.columns().contains_key(kind) ==> (r matches Some(c) && c@ == self.columns()[kind]),
            !self.columns().contains_key(kind) ==> r is None,
    {
        match self.find_kind(kind) {
            Some(p) => {
                proof {
                    self.lemma_column_at(p as int);
                }
                Some(&self.components[p])
            },
            None => None,
        }
    }

    /// The column of `kind` for update, if it has one.
    pub fn get_components_mut(&mut self, kind: Kind) -> (r: Option<&mut VecStore<V>>)
        requires
            old(self).wf(),
        ensures
            old(self).columns().contains_key(kind) ==> {
                &&& r matches Some(c)
                &&& c@ == old(self).columns()[kind]
                &&& final(self).columns() == old(self).columns().insert(kind, final(c)@)
                &&& final(self).entities() == old(self).entities()
                &&& final(self).released() == old(self).released()
            },
            !old(self).columns().contains_key(kind) ==> r is None && *final(self) == *old(self),
    {
        match self.find_kind(kind) {
            Some(p) => {
                proof {
                    self.lemma_column_at(p as int);
                    assert forall|k: Kind|
                        #[trigger] self.columns().contains_key(k) && k != kind implies self.kinds@.index_of(k)
                        != p by {
                        assert(self.kinds@.contains(k));
                    }
                }
                Some(&mut self.components[p])
            },
            None => None,
        }
    }

    /// The record of `id`, if `id` is in the table.
    pub fn get_entity(&self, id: usize) -> (r: Option<&Entity>)
        ensures
            id < self.entities().len() ==> r == Some(&self.entities()[id as int]),
            id >= self.entities().len() ==> r is None,
    {
        self.entities.get(id)
    }

    /// The record of `id` for update, if `id` is in the table.
    pub fn get_entity_mut(&mut self, id: usize) -> (r: Option<&mut Entity>)
        ensures
            id < old(self).entities().len() ==> {
                &&& r matches Some(e)
                &&& *e == old(self).entities()[id as int]
                &&& final(self).entities() == old(self).entities().update(id as int, *final(e))
                &&& final(self).released() == old(self).released()
                &&& final(self).columns() == old(self).columns()
            },
            id >= old(self).entities().len() ==> r is None && *final(self) == *old(self),
    {
        self.entities.get_mut(id)
    }

    /// The ids of the active records that carry every kind in `type_ids`,
    /// in increasing order.
    pub fn get_entity_ids(&self, type_ids: &KindSet) -> (r: Vec<usize>)
        ensures
            query_spec(self.entities(), type_ids@, r@),
    {
        self.entities.filter_by_components(type_ids)
    }

    /// Issues an identity and returns the builder that attaches its values.
    pub fn create_entity(&mut self) -> (r: EntityBuilder<'_, V>)
        requires
            old(self).wf(),
            old(self).entities().len() < usize::MAX,
        ensures
            r.wf(),
            issued(*old(self), r.registry_view(), r.id),
            r.type_ids@ == Set::<Kind>::empty(),
            *final(self) == *final(r.registry),
    {
        EntityBuilder::new(self)
    }

    /// Starts a query on this registry.
    pub fn query(&self) -> (r: QueryBuilder<'_, V>)
        ensures
            r.required() == Set::<Kind>::empty(),
            r.registry_view() == *self,
    {
        QueryBuilder::new(self)
    }
}

} // verus!
