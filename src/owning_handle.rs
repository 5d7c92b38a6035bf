//! An owner packaged with a handle derived from it. The owner lives on the heap, so
//! moving the pair moves neither; the handle is dropped before the owner.
use vstd::prelude::*;

verus! {

pub struct OwningHandle<O, H> {
    // Fields drop in declaration order: the handle goes before the owner it came from.
    handle: H,
    owner: Box<O>,
}

impl<O, H> OwningHandle<O, H> {
    /// The owner.
    pub closed spec fn owner_view(&self) -> O {
        *self.owner
    }

    /// The handle.
    pub closed spec fn handle_view(&self) -> H {
        self.handle
    }

    /// Places `owner` on the heap, then derives the handle from it with one call of `map`.
    /// The handle is a value computed from the owner: without `unsafe` code it cannot
    /// keep a borrow of the owner (`|v| &v[1]` is refused; `|v| v[1]` is fine).
    pub fn mapped<F: Fn(&O) -> H>(owner: O, map: F) -> (r: Self)
        requires
            map.requires((&owner,)),
        ensures
            r.owner_view() == owner,
            map.ensures((&owner,), r.handle_view()),
    {
        let boxed = Box::new(owner);
        let handle = map(&*boxed);
        OwningHandle { handle, owner: boxed }
    }

    /// Borrows the owner.
    pub fn owner(&self) -> (r: &O)
        ensures
            *r == self.owner_view(),
    {
        &self.owner
    }

    /// Borrows the handle.
    pub fn as_ref(&self) -> (r: &H)
        ensures
            *r == self.handle_view(),
    {
        &self.handle
    }

    /// Borrows the handle mutably; the owner stays as it is.
    pub fn as_mut(&mut self) -> (r: &mut H)
        ensures
            *r == old(self).handle_view(),
            final(self).owner_view() == old(self).owner_view(),
            final(self).handle_view() == *final(r),
    {
        &mut self.handle
    }
}

} // verus!
