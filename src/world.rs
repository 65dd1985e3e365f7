//! The store as its users see it: a registry and a resource map.
use vstd::prelude::*;

use crate::component_store::VecStore;
use crate::entity::Entity;
use crate::entity_builder::EntityBuilder;
use crate::kinds::Kind;
use crate::query::QueryBuilder;
use crate::registry::{empty_column, issued, withdrawn, Registry};
use crate::resource::{ResourceError, Resources};

verus! {

/// A registry of identities and columns of values of type `V`, beside
/// resources of type `R`.
pub struct World<V, R> {
    resources: Resources<R>,
    registry: Registry<V>,
}

impl<V, R> World<V, R> {
    /// The registry.
    pub closed spec fn registry_view(&self) -> Registry<V> {
        self.registry
    }

    /// The resources stored, by kind.
    pub closed spec fn resources_view(&self) -> Map<Kind, R> {
        self.resources@
    }

    /// The resource map is well formed.
    pub closed spec fn resources_wf(&self) -> bool {
        self.resources.wf()
    }

    /// Both parts are well formed.
    pub open spec fn wf(&self) -> bool {
        self.registry_view().wf() && self.resources_wf()
    }

    /// Creates a store with no identities, kinds or resources.
    pub fn new() -> (r: World<V, R>)
        ensures
            r.wf(),
            r.registry_view().columns() == Map::<Kind, Seq<Option<V>>>::empty(),
            r.registry_view().entities().len() == 0,
            r.resources_view() == Map::<Kind, R>::empty(),
    {
        World { resources: Resources::new(), registry: Registry::new() }
    }

    /// Gives `kind` a new column with one empty slot per identity.
    pub fn register_component(&mut self, kind: Kind)
        requires
            old(self).wf(),
        ensures
            final(self).wf(),
            final(self).registry_view().columns() == old(self).registry_view().columns().insert(
                kind,
                empty_column(old(self).registry_view().entities().len()),
            ),
            final(self).registry_view().entities() == old(self).registry_view().entities(),
            final(self).registry_view().released() == old(self).registry_view().released(),
            final(self).resources_view() == old(self).resources_view(),
    {
        self.registry.register_component(kind);
    }

    /// Issues an identity and returns the builder that attaches its values.
    pub fn create_entity(&mut self) -> (r: EntityBuilder<'_, V>)
        requires
            old(self).wf(),
            old(self).registry_view().entities().len() < usize::MAX,
        ensures
            r.wf(),
            issued(old(self).registry_view(), r.registry_view(), r.id),
            r.type_ids@ == Set::<Kind>::empty(),
            final(self).registry_view() == *final(r.registry),
            final(self).resources_view() == old(self).resources_view(),
            final(self).resources_wf(),
    {
        self.registry.create_entity()
    }

    /// Releases `id`, emptying its slot in every column, when it is active.
    pub fn release_entity(&mut self, id: usize)
        requires
            old(self).wf(),
        ensures
            final(self).wf(),
            withdrawn(old(self).registry_view(), final(self).registry_view(), id),
            final(self).resources_view() == old(self).resources_view(),
    {
        self.registry.release_entity(id);
    }

    /// The column of `kind`, if it has one.
    pub fn get_components(&self, kind: Kind) -> (r: Option<&VecStore<V>>)
        requires
            self.wf(),
        ensures
            self.registry_view().columns().contains_key(kind) ==> (r matches Some(c) && c@
                == self.registry_view().columns()[kind]),
            !self.registry_view().columns().contains_key(kind) ==> r is None,
    {
        self.registry.get_components(kind)
    }

    /// The column of `kind` for update, if it has one.
    pub fn get_components_mut(&mut self, kind: Kind) -> (r: Option<&mut VecStore<V>>)
        requires
            old(self).wf(),
        ensures
            old(self).registry_view().columns().contains_key(kind) ==> {
                &&& r matches Some(c)
                &&& c@ == old(self).registry_view().columns()[kind]
                &&& final(self).registry_view().columns() == old(
                    self,
                ).registry_view().columns().insert(kind, final(c)@)
                &&& final(self).registry_view().entities() == old(self).registry_view().entities()
                &&& final(self).registry_view().released() == old(self).registry_view().released()
                &&& final(self).resources_view() == old(self).resources_view()
            },
            !old(self).registry_view().columns().contains_key(kind) ==> r is None && *final(self)
                == *old(self),
    {
        self.registry.get_components_mut(kind)
    }

    /// The record of `id`, if `id` is in the table.
    pub fn get_entity(&self, id: usize) -> (r: Option<&Entity>)
        ensures
            id < self.registry_view().entities().len() ==> r == Some(
                &self.registry_view().entities()[id as int],
            ),
            id >= self.registry_view().entities().len() ==> r is None,
    {
        self.registry.get_entity(id)
    }

    /// The record of `id` for update, if `id` is in the table.
    pub fn get_entity_mut(&mut self, id: usize) -> (r: Option<&mut Entity>)
        ensures
            id < old(self).registry_view().entities().len() ==> {
                &&& r matches Some(e)
                &&& *e == old(self).registry_view().entities()[id as int]
                &&& final(self).registry_view().entities() == old(
                    self,
                ).registry_view().entities().update(id as int, *final(e))
                &&& final(self).registry_view().released() == old(self).registry_view().released()
                &&& final(self).registry_view().columns() == old(self).registry_view().columns()
                &&& final(self).resources_view() == old(self).resources_view()
            },
            id >= old(self).registry_view().entities().len() ==> r is None && *final(self)
                == *old(self),
    {
        self.registry.get_entity_mut(id)
    }

    /// Starts a query on the registry.
    pub fn query(&self) -> (r: QueryBuilder<'_, V>)
        ensures
            r.required() == Set::<Kind>::empty(),
            r.registry_view() == self.registry_view(),
    {
        self.registry.query()
    }

    /// Stores `resource` under `kind`, in place of any value stored there.
    pub fn add_resource(&mut self, kind: Kind, resource: R)
        requires
            old(self).wf(),
        ensures
            final(self).wf(),
            final(self).resources_view() == old(self).resources_view().insert(kind, resource),
            final(self).registry_view() == old(self).registry_view(),
    {
        self.resources.add(kind, resource);
    }

    /// The resource stored under `kind`.
    pub fn get_resource(&self, kind: Kind) -> (r: Result<&R, ResourceError>)
        requires
            self.wf(),
        ensures
            self.resources_view().contains_key(kind) ==> (r matches Ok(v) && *v
                == self.resources_view()[kind]),
            !self.resources_view().contains_key(kind) ==> r == Err::<&R, ResourceError>(
                ResourceError::NotFound,
            ),
    {
        self.resources.get(kind)
    }

    /// The resource stored under `kind`, for writing.
    pub fn get_resource_mut(&mut self, kind: Kind) -> (r: Result<&mut R, ResourceError>)
        requires
            old(self).wf(),
        ensures
            old(self).resources_view().contains_key(kind) ==> {
                &&& r matches Ok(v)
                &&& *v == old(self).resources_view()[kind]
                &&& final(self).wf()
                &&& final(self).resources_view() == old(self).resources_view().insert(
                    kind,
                    *final(v),
                )
                &&& final(self).registry_view() == old(self).registry_view()
            },
            !old(self).resources_view().contains_key(kind) ==> {
                &&& r matches Err(e)
                &&& e == ResourceError::NotFound
                &&& *final(self) == *old(self)
            },
    {
        self.resources.get_mut(kind)
    }

    /// Discards the resource stored under `kind`, if any.
    pub fn remove_resource(&mut self, kind: Kind)
        requires
            old(self).wf(),
        ensures
            final(self).wf(),
            final(self).resources_view() == old(self).resources_view().remove(kind),
            final(self).registry_view() == old(self).registry_view(),
    {
        self.resources.remove(kind);
    }
}

} // verus!
