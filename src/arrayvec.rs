use vstd::prelude::*;

verus! {

/// A stack that holds at most `N` values.
pub struct ArrayVec<T, const N: usize> {
    items: Vec<T>,
}

impl<T, const N: usize> View for ArrayVec<T, N> {
    type V = Seq<T>;

    /// The held values, in the order they were pushed.
    closed spec fn view(&self) -> Seq<T> {
        self.items@
    }
}

impl<T, const N: usize> ArrayVec<T, N> {
    /// Holds of every stack built through these methods: `try_push` refuses a value once `N`
    /// are held.
    pub open spec fn within_capacity(&self) -> bool {
        self@.len() <= N
    }

    /// An empty stack.
    pub fn new() -> (r: Self)
        ensures
            r@ == Seq::<T>::empty(),
            r.within_capacity(),
    {
        ArrayVec { items: Vec::new() }
    }

    /// The number of held values.
    pub fn len(&self) -> (r: usize)
        ensures
            r == self@.len(),
    {
        self.items.len()
    }

    /// Pushes `value` when there is room for it, and hands it back otherwise.
    pub fn try_push(&mut self, value: T) -> (r: Option<T>)
        ensures
            old(self)@.len() < N ==> r is None && final(self)@ == old(self)@.push(value),
            old(self)@.len() >= N ==> r == Some(value) && final(self)@ == old(self)@,
            old(self).within_capacity() ==> final(self).within_capacity(),
    {
        if self.items.len() < N {
            self.items.push(value);
            None
        } else {
            Some(value)
        }
    }

    /// A mutable reference to the most recently pushed value, if any.
    pub fn last_mut(&mut self) -> (r: Option<&mut T>)
        ensures
            old(self)@.len() == 0 ==> r is None && final(self)@ == old(self)@,
            old(self)@.len() > 0 ==> (r matches Some(m) && *m == old(self)@.last()
                && final(self)@ == old(self)@.drop_last().push(*final(m))),
    {
        let n = self.items.len();
        if n > 0 {
            Some(&mut self.items[n - 1])
        } else {
            None
        }
    }

    /// Removes the most recently pushed value and hands it back, if any.
    pub fn pop(&mut self) -> (r: Option<T>)
        ensures
            old(self)@.len() == 0 ==> r is None && final(self)@ == old(self)@,
            old(self)@.len() > 0 ==> r == Some(old(self)@.last()) && final(self)@ == old(self)@.drop_last(),
    {
        self.items.pop()
    }

    /// Drops every held value.
    pub fn clear(&mut self)
        ensures
            final(self)@ == Seq::<T>::empty(),
    {
        self.items.clear();
    }
}

} // verus!
