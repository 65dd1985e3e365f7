//! Singleton values keyed by kind.
use vstd::prelude::*;

use crate::kinds::{lemma_index_of_unique, Kind};

verus! {

/// Why a resource could not be handed out.
#[derive(Clone, Copy, PartialEq, Eq, Debug)]
pub enum ResourceError {
    /// No resource is stored under the kind asked for.
    NotFound,
}

/// A holder of one value, read and written in place.
pub trait ResourceType {
    type Object;

    /// The value held.
    spec fn object(&self) -> Self::Object;

    /// The value, for reading.
    fn get(&self) -> (r: &Self::Object)
        ensures
            *r == self.object(),
    ;

    /// The value, for writing.
    fn get_mut(&mut self) -> (r: &mut Self::Object)
        ensures
            *r == old(self).object(),
            final(self).object() == *final(r),
    ;
}

/// One stored resource value.
pub struct Resource<T> {
    data: T,
}

impl<T> Resource<T> {
    /// Wraps `data`.
    pub fn new(data: T) -> (r: Resource<T>)
        ensures
            r.object() == data,
    {
        Resource { data }
    }
}

impl<T> ResourceType for Resource<T> {
    type Object = T;

    closed spec fn object(&self) -> T {
        self.data
    }

    fn get(&self) -> (r: &T) {
        &self.data
    }

    fn get_mut(&mut self) -> (r: &mut T) {
        &mut self.data
    }
}

/// The resources of a store, at most one per kind.
pub struct Resources<R> {
    kinds: Vec<Kind>,
    data: Vec<Resource<R>>,
}

impl<R> View for Resources<R> {
    type V = Map<Kind, R>;

    closed spec fn view(&self) -> Map<Kind, R> {
        Map::new(
            |k: Kind| self.kinds@.contains(k),
            |k: Kind| self.data@[self.kinds@.index_of(k)].object(),
        )
    }
}

impl<R> Resources<R> {
    /// Each kind is stored once, beside its value.
    pub closed spec fn wf(&self) -> bool {
        &&& self.kinds@.no_duplicates()
        &&& self.kinds@.len() == self.data@.len()
    }

    proof fn lemma_at(&self, p: int)
        requires
            self.wf(),
            0 <= p < self.kinds@.len(),
        ensures
            self@.contains_key(self.kinds@[p]),
            self@[self.kinds@[p]] == self.data@[p].object(),
    {
        lemma_index_of_unique(self.kinds@, p);
    }

    /// Creates an empty map.
    pub fn new() -> (r: Resources<R>)
        ensures
            r.wf(),
            r@ == Map::<Kind, R>::empty(),
    {
        let r = Resources { kinds: Vec::new(), data: Vec::new() };
        assert(r@ =~= Map::<Kind, R>::empty());
        r
    }

    fn find(&self, kind: Kind) -> (r: Option<usize>)
        ensures
            r matches Some(p) ==> p < self.kinds@.len() && self.kinds@[p as int] == kind,
            r is None ==> !self.kinds@.contains(kind),
    {
        let mut i: usize = 0;
        while i < self.kinds.len()
            invariant
                0 <= i <= self.kinds@.len(),
                forall|j: int| 0 <= j < i ==> self.kinds@[j] != kind,
            decreases self.kinds@.len() - i,
        {
            if self.kinds[i] == kind {
                return Some(i);
            }
            i += 1;
        }
        None
    }

    /// Stores `data` under `kind`, in place of any value stored there.
    pub fn add(&mut self, kind: Kind, data: R)
        requires
            old(self).wf(),
        ensures
            final(self).wf(),
            final(self)@ == old(self)@.insert(kind, data),
    {
        match self.find(kind) {
            Some(p) => {
                self.data.set(p, Resource::new(data));
                proof {
                    assert forall|k: Kind|
                        #[trigger] self@.contains_key(k) && k != kind implies self@[k] == old(
                            self,
                        )@[k] by {
                        assert(self.kinds@.contains(k));
                    }
                    self.lemma_at(p as int);
                    assert(self@ =~= old(self)@.insert(kind, data));
                }
            },
            None => {
                self.kinds.push(kind);
                self.data.push(Resource::new(data));
                proof {
                    let n = self.kinds@.len() - 1;
                    assert forall|a: int, b: int|
                        0 <= a < b < self.kinds@.len() implies self.kinds@[a] != self.kinds@[b] by {
                        if b == n {
                            assert(old(self).kinds@.contains(self.kinds@[a]));
                        }
                    }
                    assert forall|k: Kind| #[trigger]
                        old(self)@.contains_key(k) implies self@.contains_key(k) && self@[k] == old(
                            self,
                        )@[k] by {
                        let q = old(self).kinds@.index_of(k);
                        assert(old(self).kinds@.contains(k));
                        assert(self.kinds@[q] == k);
                        self.lemma_at(q);
                    }
                    self.lemma_at(n);
                    assert forall|k: Kind| #[trigger] self@.contains_key(k) implies k == kind
                        || old(self)@.contains_key(k) by {
                        let q = choose|q: int| 0 <= q < self.kinds@.len() && self.kinds@[q] == k;
                        if q < n {
                            assert(old(self).kinds@[q] == k);
                        }
                    }
                    assert(self@ =~= old(self)@.insert(kind, data));
                }
            },
        }
    }

    /// The value stored under `kind`.
    pub fn get(&self, kind: Kind) -> (r: Result<&R, ResourceError>)
        requires
            self.wf(),
        ensures
            self@.contains_key(kind) ==> (r matches Ok(v) && *v == self@[kind]),
            !self@.contains_key(kind) ==> r == Err::<&R, ResourceError>(ResourceError::NotFound),
    {
        match self.find(kind) {
            Some(p) => {
                proof {
                    self.lemma_at(p as int);
                }
                Ok(self.data[p].get())
            },
            None => Err(ResourceError::NotFound),
        }
    }

    /// The value stored under `kind`, for writing.
    pub fn get_mut(&mut self, kind: Kind) -> (r: Result<&mut R, ResourceError>)
        requires
            old(self).wf(),
        ensures
            old(self)@.contains_key(kind) ==> {
                &&& r matches Ok(v)
                &&& *v == old(self)@[kind]
                &&& final(self).wf()
                &&& final(self)@ == old(self)@.insert(kind, *final(v))
            },
            !old(self)@.contains_key(kind) ==> {
                &&& r matches Err(e)
                &&& e == ResourceError::NotFound
                &&& *final(self) == *old(self)
            },
    {
        match self.find(kind) {
            Some(p) => {
                proof {
                    self.lemma_at(p as int);
                    assert forall|k: Kind| #[trigger]
                        self@.contains_key(k) && k != kind implies self.kinds@.index_of(k) != p by {
                        assert(self.kinds@.contains(k));
                    }
                }
                Ok(self.data[p].get_mut())
            },
            None => Err(ResourceError::NotFound),
        }
    }

    /// Discards the value stored under `kind`, if any.
    pub fn remove(&mut self, kind: Kind)
        requires
            old(self).wf(),
        ensures
            final(self).wf(),
            final(self)@ == old(self)@.remove(kind),
    {
        match self.find(kind) {
            Some(p) => {
                self.kinds.remove(p);
                self.data.remove(p);
                proof {
                    let o = old(self).kinds@;
                    assert forall|a: int, b: int|
                        0 <= a < b < self.kinds@.len() implies self.kinds@[a] != self.kinds@[b] by {
                        let a0 = if a < p { a } else { a + 1 };
                        let b0 = if b < p { b } else { b + 1 };
                        assert(o[a0] == self.kinds@[a]);
                        assert(o[b0] == self.kinds@[b]);
                    }
                    assert forall|k: Kind| #[trigger]
                        self@.contains_key(k) implies k != kind && old(self)@.contains_key(k)
                        && self@[k] == old(self)@[k] by {
                        let q = self.kinds@.index_of(k);
                        assert(self.kinds@.contains(k));
                        let q0 = if q < p { q } else { q + 1 };
                        assert(o[q0] == k);
                        lemma_index_of_unique(o, q0);
                    }
                    assert forall|k: Kind| #[trigger]
                        old(self)@.contains_key(k) && k != kind implies self@.contains_key(k) by {
                        let q0 = o.index_of(k);
                        assert(o.contains(k));
                        assert(q0 != p);
                        let q = if q0 < p { q0 } else { q0 - 1 };
                        assert(self.kinds@[q] == k);
                    }
                    assert(self@ =~= old(self)@.remove(kind));
                }
            },
            None => {
                assert(self@ =~= old(self)@.remove(kind));
            },
        }
    }
}

} // verus!
