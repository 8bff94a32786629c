//! The backing store for journal entries.
//!
//! An [`Arena`] owns a growable region that stores command values and hands
//! out a handle for each. A handle stays valid, and keeps denoting the same
//! stored value, until the next [`Arena::reset`], no matter how many further
//! allocations happen and no matter how the arena itself is moved around:
//! handles are indices into the store, never addresses, so relocation of the
//! owning structure cannot invalidate them.

use vstd::prelude::*;

verus! {

/// A growable store of command values, addressed by stable handles.
///
/// The store only ever grows between resets; `reset` tears down every stored
/// value (each value is dropped exactly once, by ownership) and returns the
/// arena to an empty, reusable state.
pub struct Arena<C> {
    slots: Vec<C>,
}

impl<C> Arena<C> {
    /// The sequence of values currently stored, in allocation order.
    /// A handle `h` denotes `self.contents()[h]`.
    pub closed spec fn contents(self) -> Seq<C> {
        self.slots@
    }

    /// Creates an empty arena. The capacity hint only sizes the first
    /// allocation; it is not a limit, and the arena grows transparently
    /// when it is exceeded.
    pub fn with_capacity(capacity_hint: usize) -> (arena: Self)
        ensures
            arena.contents() == Seq::<C>::empty(),
    {
        Arena { slots: Vec::with_capacity(capacity_hint) }
    }

    /// Moves `value` into the arena and returns its handle. Every handle
    /// issued earlier keeps denoting the value it denoted before.
    pub fn allocate(&mut self, value: C) -> (handle: usize)
        ensures
            final(self).contents() == old(self).contents().push(value),
            handle == old(self).contents().len(),
    {
        let handle = self.slots.len();
        self.slots.push(value);
        handle
    }

    /// The number of values currently stored.
    pub fn len(&self) -> (n: usize)
        ensures
            n == self.contents().len(),
    {
        self.slots.len()
    }

    /// Borrows the value a handle denotes.
    pub fn get(&self, handle: usize) -> (value: &C)
        requires
            handle < self.contents().len(),
        ensures
            *value == self.contents()[handle as int],
    {
        &self.slots[handle]
    }

    /// Empties the arena, invalidating every handle issued so far. Each
    /// stored value is dropped here, exactly once; the storage stays
    /// available for reuse by later allocations.
    pub fn reset(&mut self)
        ensures
            final(self).contents() == Seq::<C>::empty(),
    {
        self.slots.clear();
    }
}

} // verus!
