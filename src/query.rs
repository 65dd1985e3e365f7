//! Collects the kinds that a query asks for, then runs it on a registry.
use vstd::prelude::*;

use crate::entity::query_spec;
use crate::kinds::{Kind, KindSet};
use crate::registry::Registry;

verus! {

/// A query under construction: the kinds an identity must all carry.
pub struct QueryBuilder<'a, V> {
    types: KindSet,
    registry: &'a Registry<V>,
}

impl<'a, V> QueryBuilder<'a, V> {
    /// The kinds asked for so far.
    pub closed spec fn required(&self) -> Set<Kind> {
        self.types@
    }

    /// The registry the query runs on.
    pub closed spec fn registry_view(&self) -> Registry<V> {
        *self.registry
    }

    /// The kind set is well formed.
    pub closed spec fn wf(&self) -> bool {
        self.types.wf()
    }

    /// Starts a query on `registry` that asks for no kind.
    pub fn new(registry: &'a Registry<V>) -> (r: QueryBuilder<'a, V>)
        ensures
            r.wf(),
            r.required() == Set::<Kind>::empty(),
            r.registry_view() == *registry,
    {
        QueryBuilder { types: KindSet::new(), registry }
    }

    /// Asks also for `kind`.
    pub fn with_component(&mut self, kind: Kind) -> (r: &mut Self)
        requires
            old(self).wf(),
        ensures
            r.wf(),
            r.required() == old(self).required().insert(kind),
            r.registry_view() == old(self).registry_view(),
            *final(self) == *final(r),
    {
        self.types.insert(kind);
        self
    }

    /// The ids of the active identities that carry every kind asked for, in
    /// increasing order.
    pub fn get(&self) -> (r: Vec<usize>)
        ensures
            query_spec(self.registry_view().entities(), self.required(), r@),
    {
        self.registry.get_entity_ids(&self.types)
    }
}

} // verus!
