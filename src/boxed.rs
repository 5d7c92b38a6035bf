//! A value on the heap, owned by a handle that can move without moving it.
use vstd::prelude::*;

verus! {

pub struct Box<T> {
    ptr: std::boxed::Box<T>,
}

impl<T> Box<T> {
    /// The value held.
    pub closed spec fn value(&self) -> T {
        *self.ptr
    }

    /// Moves `val` to the heap.
    pub fn new(val: T) -> (r: Self)
        ensures
            r.value() == val,
    {
        Box { ptr: std::boxed::Box::new(val) }
    }

    /// Borrows the value.
    pub fn get(&self) -> (r: &T)
        ensures
            *r == self.value(),
    {
        &self.ptr
    }

    /// Borrows the value mutably.
    pub fn get_mut(&mut self) -> (r: &mut T)
        ensures
            *r == old(self).value(),
            final(self).value() == *final(r),
    {
        &mut self.ptr
    }
}

impl<T> std::ops::Deref for Box<T> {
    type Target = T;

    fn deref(&self) -> (r: &T)
        ensures
            *r == self.value(),
    {
        self.get()
    }
}

impl<T> std::ops::DerefMut for Box<T> {
    fn deref_mut(&mut self) -> (r: &mut T)
        ensures
            *r == old(self).value(),
            final(self).value() == *final(r),
    {
        self.get_mut()
    }
}

} // verus!
