//! Assembles a new identity: issues it, attaches values, then records its
//! kinds.
use vstd::prelude::*;

use crate::kinds::{Kind, KindSet};
use crate::registry::{attached, committed, issued, Registry};

verus! {

/// A pending identity of a registry, with the kinds attached to it so far.
pub struct EntityBuilder<'a, V> {
    pub id: usize,
    pub type_ids: KindSet,
    pub registry: &'a mut Registry<V>,
}

impl<'a, V> EntityBuilder<'a, V> {
    /// The registry as this builder currently holds it.
    pub open spec fn registry_view(&self) -> Registry<V> {
        *self.registry
    }

    /// The registry is well formed, the pending id lies in its table and its
    /// record is active.
    pub open spec fn wf(&self) -> bool {
        &&& self.registry_view().wf()
        &&& self.id < self.registry_view().entities().len()
        &&& self.registry_view().entities()[self.id as int].is_active
        &&& self.type_ids.wf()
    }

    /// Issues an identity of `registry`, emptying or appending its slot in
    /// every column.
    pub fn new(registry: &'a mut Registry<V>) -> (r: EntityBuilder<'a, V>)
        requires
            old(registry).wf(),
            old(registry).entities().len() < usize::MAX,
        ensures
            r.wf(),
            issued(*old(registry), r.registry_view(), r.id),
            r.type_ids@ == Set::<Kind>::empty(),
            *final(registry) == *final(r.registry),
    {
        let id = registry.issue();
        EntityBuilder { id, type_ids: KindSet::new(), registry }
    }

    /// Puts `data` into the column of `kind` at the pending id, creating the
    /// column when `kind` has none, and notes `kind` as attached.
    pub fn with_component(&mut self, kind: Kind, data: V) -> (r: &mut Self)
        requires
            old(self).wf(),
        ensures
            r.wf(),
            r.id == old(self).id,
            attached(old(self).registry_view(), r.registry_view(), old(self).id, kind, data),
            r.type_ids@ == old(self).type_ids@.insert(kind),
            *final(self) == *final(r),
            *final(r.registry) == *final(old(self).registry),
    {
        self.registry.attach(self.id, kind, data);
        self.type_ids.insert(kind);
        self
    }

    /// Records the attached kinds on the pending identity and returns it.
    pub fn build(&mut self) -> (id: usize)
        requires
            old(self).wf(),
        ensures
            final(self).wf(),
            id == old(self).id,
            final(self).id == id,
            final(self).type_ids == old(self).type_ids,
            committed(old(self).registry_view(), final(self).registry_view(), id, old(self).type_ids@),
            *final(final(self).registry) == *final(old(self).registry),
    {
        self.registry.commit(self.id, &self.type_ids);
        self.id
    }
}

} // verus!
