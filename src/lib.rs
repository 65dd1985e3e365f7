//! An in-process store that attaches typed values to recyclable integer
//! identities and answers "which identities carry all of these kinds" queries.
use vstd::prelude::*;

pub mod kinds;
pub mod entity;
pub mod component_store;
pub mod registry;
pub mod entity_builder;
pub mod query;
pub mod resource;
pub mod world;
pub mod system;
pub mod lifecycle;

verus! {

/// The sum of two sizes.
pub fn add(left: usize, right: usize) -> (r: usize)
    requires
        left + right <= usize::MAX,
    ensures
        r == left + right,
{
    left + right
}

} // verus!
