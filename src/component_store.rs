//! Columns: one slot per identity, each holding an optional value.
use vstd::prelude::*;

verus! {

/// Why a column or one of its slots could not be handed out.
#[derive(Clone, Copy, PartialEq, Eq, Debug)]
pub enum ComponentError {
    /// The kind has no column, or the id lies outside the column.
    NotFound,
}

/// The structural operations that the registry performs on every column,
/// whatever the type of its values.
pub trait ComponentStore {
    type Value;

    /// The slots, indexed by id.
    spec fn slots(&self) -> Seq<Option<Self::Value>>;

    /// Appends one empty slot.
    fn push_none(&mut self)
        ensures
            final(self).slots() == old(self).slots().push(None),
    ;

    /// Empties slot `index`.
    fn set_none(&mut self, index: usize)
        requires
            index < old(self).slots().len(),
        ensures
            final(self).slots() == old(self).slots().update(index as int, None),
    ;

    /// Brings the column to `len` slots, adding empty ones at the end or
    /// cutting the last ones off.
    fn resize_to_nones(&mut self, len: usize)
        ensures
            final(self).slots().len() == len,
            forall|j: int|
                0 <= j < len ==> #[trigger] final(self).slots()[j] == if j < old(
                    self,
                ).slots().len() {
                    old(self).slots()[j]
                } else {
                    None
                },
    ;

    /// Discards the value of slot `index`.
    fn drop(&mut self, index: usize)
        requires
            index < old(self).slots().len(),
        ensures
            final(self).slots() == old(self).slots().update(index as int, None),
    ;
}

/// A column of values of type `T`, slot `i` belonging to identity `i`.
/// Readers share a column through `&`; a writer holds it through `&mut`.
pub struct VecStore<T> {
    data: Vec<Option<T>>,
}

impl<T> View for VecStore<T> {
    type V = Seq<Option<T>>;

    closed spec fn view(&self) -> Seq<Option<T>> {
        self.data@
    }
}

impl<T> VecStore<T> {
    /// Creates a column with no slots.
    pub fn new() -> (r: VecStore<T>)
        ensures
            r@ == Seq::<Option<T>>::empty(),
    {
        VecStore { data: Vec::new() }
    }

    /// The slot of `index` for reading.
    pub fn get(&self, index: usize) -> (r: Result<&Option<T>, ComponentError>)
        ensures
            index < self@.len() ==> r == Ok::<&Option<T>, ComponentError>(&self@[index as int]),
            index >= self@.len() ==> r == Err::<&Option<T>, ComponentError>(
                ComponentError::NotFound,
            ),
    {
        if index < self.data.len() {
            Ok(&self.data[index])
        } else {
            Err(ComponentError::NotFound)
        }
    }

    /// The slot of `index` for writing.
    pub fn get_mut(&mut self, index: usize) -> (r: Result<&mut Option<T>, ComponentError>)
        ensures
            index < old(self)@.len() ==> {
                &&& r matches Ok(v)
                &&& *v == old(self)@[index as int]
                &&& final(self)@ == old(self)@.update(index as int, *final(v))
            },
            index >= old(self)@.len() ==> {
                &&& r matches Err(e)
                &&& e == ComponentError::NotFound
                &&& final(self)@ == old(self)@
            },
    {
        if index < self.data.len() {
            Ok(&mut self.data[index])
        } else {
            Err(ComponentError::NotFound)
        }
    }

    /// Number of slots.
    pub fn len(&self) -> (r: usize)
        ensures
            r == self@.len(),
    {
        self.data.len()
    }

    /// Appends one empty slot.
    pub fn push_empty(&mut self)
        ensures
            final(self)@ == old(self)@.push(None),
    {
        self.data.push(None);
    }

    /// Empties slot `index`.
    pub fn clear(&mut self, index: usize)
        requires
            index < old(self)@.len(),
        ensures
            final(self)@ == old(self)@.update(index as int, None),
    {
        self.data.set(index, None);
    }

    /// Puts `value` into slot `index`.
    pub fn set(&mut self, index: usize, value: T)
        requires
            index < old(self)@.len(),
        ensures
            final(self)@ == old(self)@.update(index as int, Some(value)),
    {
        self.data.set(index, Some(value));
    }

    /// Brings the column to `len` slots, adding empty ones at the end or
    /// cutting the last ones off.
    pub fn resize_empty(&mut self, len: usize)
        ensures
            final(self)@.len() == len,
            forall|j: int|
                0 <= j < len ==> #[trigger] final(self)@[j] == if j < old(self)@.len() {
                    old(self)@[j]
                } else {
                    None
                },
    {
        if len < self.data.len() {
            self.data.truncate(len);
        } else {
            while self.data.len() < len
                invariant
                    old(self)@.len() <= self.data@.len() <= len,
                    forall|j: int|
                        0 <= j < self.data@.len() ==> #[trigger] self.data@[j] == if j < old(
                            self,
                        )@.len() {
                            old(self)@[j]
                        } else {
                            None
                        },
                decreases len - self.data@.len(),
            {
                self.data.push(None);
            }
        }
    }
}

impl<T> ComponentStore for VecStore<T> {
    type Value = T;

    open spec fn slots(&self) -> Seq<Option<T>> {
        self@
    }

    fn push_none(&mut self) {
        self.push_empty();
    }

    fn set_none(&mut self, index: usize) {
        self.clear(index);
    }

    fn resize_to_nones(&mut self, len: usize) {
        self.resize_empty(len);
    }

    fn drop(&mut self, index: usize) {
        self.clear(index);
    }
}

} // verus!
