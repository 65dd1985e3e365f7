//! Sets of kind tags, kept as a strictly increasing vector.
use vstd::prelude::*;

verus! {

/// The tag that identifies one kind of value held by the store.
pub type Kind = u64;

/// In a sequence without duplicates, the element at `p` is found at `p`.
pub proof fn lemma_index_of_unique(s: Seq<Kind>, p: int)
    requires
        s.no_duplicates(),
        0 <= p < s.len(),
    ensures
        s.index_of(s[p]) == p,
{
    assert(s.contains(s[p]));
}

/// A finite set of kind tags.
#[derive(Clone, PartialEq, Debug)]
pub struct KindSet {
    items: Vec<Kind>,
}

impl View for KindSet {
    type V = Set<Kind>;

    closed spec fn view(&self) -> Set<Kind> {
        Set::new(|k: Kind| self.items@.contains(k))
    }
}

impl KindSet {
    /// The tags are held strictly increasing, so each appears once.
    pub closed spec fn wf(&self) -> bool {
        forall|i: int, j: int| 0 <= i < j < self.items@.len() ==> self.items@[i] < self.items@[j]
    }

    /// Creates an empty set.
    pub fn new() -> (r: KindSet)
        ensures
            r.wf(),
            r@ == Set::<Kind>::empty(),
    {
        let r = KindSet { items: Vec::new() };
        assert(r@ =~= Set::<Kind>::empty());
        r
    }

    /// A copy of this set.
    pub fn copy_set(&self) -> (r: KindSet)
        requires
            self.wf(),
        ensures
            r.wf(),
            r@ == self@,
    {
        let mut items: Vec<Kind> = Vec::new();
        let mut i: usize = 0;
        while i < self.items.len()
            invariant
                0 <= i <= self.items@.len(),
                items@ == self.items@.subrange(0, i as int),
            decreases self.items@.len() - i,
        {
            items.push(self.items[i]);
            i += 1;
            assert(items@ =~= self.items@.subrange(0, i as int));
        }
        assert(items@ =~= self.items@);
        KindSet { items }
    }

    /// Number of tags in the set.
    pub fn len(&self) -> (r: usize)
        requires
            self.wf(),
        ensures
            r == self@.len(),
    {
        proof {
            self.lemma_len();
        }
        self.items.len()
    }

    proof fn lemma_len(&self)
        requires
            self.wf(),
        ensures
            self@.finite(),
            self@.len() == self.items@.len(),
    {
        assert(self.items@.no_duplicates());
        self.items@.unique_seq_to_set();
        assert(self@ =~= self.items@.to_set());
    }

    /// Whether `k` is in the set.
    pub fn contains(&self, k: Kind) -> (r: bool)
        ensures
            r == self@.contains(k),
    {
        let mut i: usize = 0;
        while i < self.items.len()
            invariant
                0 <= i <= self.items@.len(),
                forall|j: int| 0 <= j < i ==> self.items@[j] != k,
            decreases self.items@.len() - i,
        {
            if self.items[i] == k {
                return true;
            }
            i += 1;
        }
        false
    }

    /// Adds `k` to the set; a tag already present leaves it unchanged.
    pub fn insert(&mut self, k: Kind)
        requires
            old(self).wf(),
        ensures
            final(self).wf(),
            final(self)@ == old(self)@.insert(k),
    {
        let ghost before = self.items@;
        let mut i: usize = 0;
        while i < self.items.len() && self.items[i] < k
            invariant
                self.items@ == before,
                0 <= i <= before.len(),
                forall|j: int| 0 <= j < i ==> before[j] < k,
            decreases before.len() - i,
        {
            i += 1;
        }
        if i < self.items.len() && self.items[i] == k {
            assert(self@ =~= old(self)@.insert(k));
            return;
        }
        self.items.insert(i, k);
        assert forall|a: int, b: int| 0 <= a < b < self.items@.len() implies self.items@[a]
            < self.items@[b] by {
            if b < i {
            } else if b == i {
            } else if a < i {
                assert(before[b - 1] >= before[i as int] || b - 1 == i);
            } else if a == i {
                assert(before[b - 1] >= before[i as int] || b - 1 == i);
            } else {
            }
        }
        assert forall|x: Kind| self@.contains(x) <==> old(self)@.insert(k).contains(x) by {
            if self@.contains(x) {
                let p = choose|p: int| 0 <= p < self.items@.len() && self.items@[p] == x;
                if p < i {
                    assert(before[p] == x);
                } else if p > i {
                    assert(before[p - 1] == x);
                }
            }
            if before.contains(x) {
                let p = choose|p: int| 0 <= p < before.len() && before[p] == x;
                if p < i {
                    assert(self.items@[p] == x);
                } else {
                    assert(self.items@[p + 1] == x);
                }
            }
            if x == k {
                assert(self.items@[i as int] == x);
            }
        }
        assert(self@ =~= old(self)@.insert(k));
    }

    /// Whether every tag of `self` is also in `other`.
    pub fn is_subset(&self, other: &KindSet) -> (r: bool)
        ensures
            r == self@.subset_of(other@),
    {
        let mut i: usize = 0;
        while i < self.items.len()
            invariant
                0 <= i <= self.items@.len(),
                forall|j: int| 0 <= j < i ==> other@.contains(#[trigger] self.items@[j]),
            decreases self.items@.len() - i,
        {
            if !other.contains(self.items[i]) {
                assert(self@.contains(self.items@[i as int]));
                return false;
            }
            i += 1;
        }
        assert forall|x: Kind| self@.contains(x) implies other@.contains(x) by {
            let p = choose|p: int| 0 <= p < self.items@.len() && self.items@[p] == x;
        }
        true
    }
}

} // verus!
