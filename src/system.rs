//! Units of work run in turn against a store.
use vstd::prelude::*;

use crate::kinds::lemma_index_of_unique;
use crate::world::World;

verus! {

/// A unit of work that its users implement.
pub trait System<V, R> {
    /// What one run of this system does: `after` may follow from `before`.
    spec fn ran(&self, before: World<V, R>, after: World<V, R>) -> bool;

    /// Runs once against `world`, leaving it well formed.
    fn run(&mut self, world: &mut World<V, R>)
        requires
            old(world).wf(),
        ensures
            final(world).wf(),
            old(self).ran(*old(world), *final(world)),
    ;
}

/// `worlds` is a run of `systems` in order, starting from `before`: system
/// `i` took `worlds[i]` to `worlds[i + 1]`, and the last world is `after`.
pub open spec fn ran_in_order<V, R, S: System<V, R>>(
    systems: Seq<S>,
    worlds: Seq<World<V, R>>,
    before: World<V, R>,
    after: World<V, R>,
) -> bool {
    &&& worlds.len() == systems.len() + 1
    &&& worlds[0] == before
    &&& worlds.last() == after
    &&& forall|i: int| 0 <= i < systems.len() ==> #[trigger] systems[i].ran(worlds[i], worlds[i + 1])
}

/// The systems to run, each under its own tag, in the order they were added.
pub struct Dispatch<S> {
    systems: Vec<Tagged<S>>,
}

struct Tagged<S> {
    tag: u64,
    system: S,
}

impl<S> Dispatch<S> {
    /// The tags of the systems, in running order.
    pub closed spec fn tags(&self) -> Seq<u64> {
        self.systems@.map_values(|e: Tagged<S>| e.tag)
    }

    /// The systems, in running order.
    pub closed spec fn systems_view(&self) -> Seq<S> {
        self.systems@.map_values(|e: Tagged<S>| e.system)
    }

    /// Each tag appears once, beside its system.
    pub closed spec fn wf(&self) -> bool {
        self.tags().no_duplicates()
    }

    /// Creates a dispatcher with no systems.
    pub fn new() -> (r: Dispatch<S>)
        ensures
            r.wf(),
            r.tags() == Seq::<u64>::empty(),
    {
        let r = Dispatch { systems: Vec::new() };
        assert(r.tags() =~= Seq::<u64>::empty());
        r
    }

    fn find(&self, tag: u64) -> (r: Option<usize>)
        ensures
            r matches Some(p) ==> p < self.tags().len() && self.tags()[p as int] == tag,
            r is None ==> !self.tags().contains(tag),
    {
        let mut i: usize = 0;
        while i < self.systems.len()
            invariant
                0 <= i <= self.systems@.len(),
                forall|j: int| 0 <= j < i ==> self.tags()[j] != tag,
            decreases self.systems@.len() - i,
        {
            if self.systems[i].tag == tag {
                return Some(i);
            }
            i += 1;
        }
        None
    }

    /// Adds `system` under `tag` as the last to run, after removing any
    /// system under that tag.
    pub fn add_system(&mut self, tag: u64, system: S)
        requires
            old(self).wf(),
        ensures
            final(self).wf(),
            old(self).tags().contains(tag) ==> final(self).tags() == old(self).tags().remove(
                old(self).tags().index_of(tag),
            ).push(tag),
            !old(self).tags().contains(tag) ==> final(self).tags() == old(self).tags().push(tag),
            old(self).tags().contains(tag) ==> final(self).systems_view() == old(
                self,
            ).systems_view().remove(old(self).tags().index_of(tag)).push(system),
            !old(self).tags().contains(tag) ==> final(self).systems_view() == old(
                self,
            ).systems_view().push(system),
    {
        self.remove_system(tag);
        let ghost mid = self.tags();
        let ghost mid_systems = self.systems_view();
        self.systems.push(Tagged { tag, system });
        assert(self.tags() =~= mid.push(tag));
        assert(self.systems_view() =~= mid_systems.push(system));
        proof {
            let n = self.tags().len() - 1;
            if old(self).tags().contains(tag) {
                lemma_index_of_unique(old(self).tags(), old(self).tags().index_of(tag));
            }
            assert(!mid.contains(tag)) by {
                if mid.contains(tag) {
                    let q = choose|q: int| 0 <= q < mid.len() && mid[q] == tag;
                    if old(self).tags().contains(tag) {
                        let p = old(self).tags().index_of(tag);
                        let q0 = if q < p { q } else { q + 1 };
                        assert(old(self).tags()[q0] == tag);
                    } else {
                        assert(old(self).tags()[q] == tag);
                    }
                }
            }
            assert forall|a: int, b: int|
                0 <= a < b < self.tags().len() implies self.tags()[a] != self.tags()[b] by {
                if b == n {
                    assert(mid.contains(self.tags()[a]));
                }
            }
        }
    }

    /// Removes the system under `tag`, if any.
    pub fn remove_system(&mut self, tag: u64)
        requires
            old(self).wf(),
        ensures
            final(self).wf(),
            old(self).tags().contains(tag) ==> final(self).tags() == old(self).tags().remove(
                old(self).tags().index_of(tag),
            ),
            !old(self).tags().contains(tag) ==> final(self).tags() == old(self).tags(),
            old(self).tags().contains(tag) ==> final(self).systems_view() == old(
                self,
            ).systems_view().remove(old(self).tags().index_of(tag)),
            !old(self).tags().contains(tag) ==> final(self).systems_view()
                == old(self).systems_view(),
    {
        match self.find(tag) {
            Some(p) => {
                self.systems.remove(p);
                assert(self.tags() =~= old(self).tags().remove(p as int));
                assert(self.systems_view() =~= old(self).systems_view().remove(p as int));
                proof {
                    let o = old(self).tags();
                    assert forall|a: int, b: int|
                        0 <= a < b < self.tags().len() implies self.tags()[a] != self.tags()[b] by {
                        let a0 = if a < p { a } else { a + 1 };
                        let b0 = if b < p { b } else { b + 1 };
                        assert(o[a0] == self.tags()[a]);
                        assert(o[b0] == self.tags()[b]);
                    }
                    lemma_index_of_unique(o, p as int);
                }
            },
            None => {},
        }
    }

    /// Runs every system once against `world`, in order, each on the world
    /// that the previous one left.
    pub fn dispatch_systems<V, R>(&mut self, world: &mut World<V, R>) where S: System<V, R>
        requires
            old(self).wf(),
            old(world).wf(),
        ensures
            final(self).wf(),
            final(self).tags() == old(self).tags(),
            final(self).systems_view().len() == old(self).systems_view().len(),
            final(world).wf(),
            exists|worlds: Seq<World<V, R>>|
                ran_in_order(old(self).systems_view(), worlds, *old(world), *final(world)),
    {
        let ghost worlds = seq![*world];
        let mut i: usize = 0;
        while i < self.systems.len()
            invariant
                self.systems@.len() == old(self).systems@.len(),
                self.tags() == old(self).tags(),
                0 <= i <= self.systems@.len(),
                world.wf(),
                worlds.len() == i + 1,
                worlds[0] == *old(world),
                worlds[i as int] == *world,
                forall|j: int|
                    0 <= j < i ==> #[trigger] old(self).systems_view()[j].ran(
                        worlds[j],
                        worlds[j + 1],
                    ),
                forall|j: int|
                    i <= j < self.systems@.len() ==> #[trigger] self.systems@[j] == old(
                        self,
                    ).systems@[j],
            decreases self.systems@.len() - i,
        {
            let ghost before = self.systems@;
            let ghost w0 = *world;
            self.systems[i].system.run(world);
            proof {
                worlds = worlds.push(*world);
                assert(old(self).systems_view()[i as int] == before[i as int].system);
                assert forall|j: int| 0 <= j < i + 1 implies #[trigger] old(
                    self,
                ).systems_view()[j].ran(worlds[j], worlds[j + 1]) by {
                    if j < i {
                        assert(worlds[j] == worlds.drop_last()[j]);
                    }
                }
            }
            assert(self.tags() =~= old(self).tags()) by {
                assert(self.systems@.len() == before.len());
                assert(self.systems@[i as int].tag == before[i as int].tag);
                assert forall|j: int| 0 <= j < before.len() && j != i implies self.systems@[j]
                    == before[j] by {}
            }
            i += 1;
        }
        assert(ran_in_order(old(self).systems_view(), worlds, *old(world), *world));
    }
}

} // verus!
