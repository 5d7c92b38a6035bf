//! A mutex whose lock flag is an atomic boolean. Locking takes the mutex by unique
//! borrow, so the borrow checker already rules out a second holder; the flag records
//! that a guard is out, and the guard clears it when dropped.
use vstd::prelude::*;
use std::sync::atomic::{AtomicBool, Ordering};

verus! {

pub struct Mutex<T> {
    value: T,
    is_locked: AtomicBool,
}

/// Access to a locked mutex's value. The fields are open so that contracts can say
/// where a write through the guard ends up; the guard is the only holder of either.
pub struct MutexGuard<'a, T> {
    /// Clears the lock flag when the guard is dropped.
    pub unlock: Unlock<'a>,
    /// The protected value.
    pub value: &'a mut T,
}

/// Holds a mutex's lock flag and clears it when dropped.
pub struct Unlock<'a> {
    is_locked: &'a AtomicBool,
}

impl<'a> Drop for Unlock<'a> {
    fn drop(&mut self)
        opens_invariants none
        no_unwind
    {
        release(self.is_locked);
    }
}

impl<T> Mutex<T> {
    /// The protected value.
    pub closed spec fn value(&self) -> T {
        self.value
    }

    /// An unlocked mutex holding `val`.
    pub fn new(val: T) -> (r: Self)
        ensures
            r.value() == val,
    {
        Mutex { value: val, is_locked: AtomicBool::new(false) }
    }

    /// Takes the lock; the guard gives access to the value until it is dropped.
    pub fn lock(&mut self) -> (r: MutexGuard<'_, T>)
        ensures
            r.value() == old(self).value(),
            final(self).value() == *final(r.value),
    {
        let _ = self.is_locked.swap(true, Ordering::Acquire);
        MutexGuard { unlock: Unlock { is_locked: &self.is_locked }, value: &mut self.value }
    }
}

impl<'a, T> MutexGuard<'a, T> {
    /// The value as it stands now.
    pub closed spec fn value(&self) -> T {
        *self.value
    }

    /// Borrows the value.
    pub fn get(&self) -> (r: &T)
        ensures
            *r == self.value(),
    {
        self.value
    }

    /// Borrows the value mutably; what is written through it is what the mutex
    /// holds once the guard is gone.
    pub fn get_mut(&mut self) -> (r: &mut T)
        ensures
            *r == old(self).value(),
            *final(self).value == *final(r),
            *final(final(self).value) == *final(old(self).value),
            final(self).unlock == old(self).unlock,
    {
        self.value
    }
}

/// Relies on `AtomicBool::store`, which with `Release` ordering neither panics nor
/// blocks: it clears the lock flag.
#[verifier::external_body]
fn release(flag: &AtomicBool)
    opens_invariants none
    no_unwind
{
    flag.store(false, Ordering::Release);
}

} // verus!
