use vstd::prelude::*;

verus! {

/// An owning handle to a single heap allocation that holds one `T`.
///
/// The allocation has exactly one owner: it is released either when the handle is dropped
/// or when the value is taken back with [`Unique::into_inner`].
pub struct Unique<T> {
    pub(crate) boxed: Box<T>,
}

impl<T> View for Unique<T> {
    type V = T;

    /// The value held in the allocation.
    open(crate) spec fn view(&self) -> T {
        *self.boxed
    }
}

impl<T> Unique<T> {
    /// Moves `value` into a fresh heap allocation.
    pub fn new(value: T) -> (r: Self)
        ensures
            r@ == value,
    {
        Unique { boxed: Box::new(value) }
    }

    /// A shared reference to the held value.
    pub fn get_ref(&self) -> (r: &T)
        ensures
            *r == self@,
    {
        &*self.boxed
    }

    /// An exclusive reference to the held value.
    pub fn get_mut(&mut self) -> (r: &mut T)
        ensures
            *r == old(self)@,
            final(self)@ == *final(r),
    {
        &mut *self.boxed
    }

    /// Releases the allocation and hands back the value it held.
    pub fn into_inner(self) -> (r: T)
        ensures
            r == self@,
        no_unwind
    {
        *self.boxed
    }
}

} // verus!
