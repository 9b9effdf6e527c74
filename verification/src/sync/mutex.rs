//! A mutual exclusion primitive that is taken by setting a flag.
use vstd::prelude::*;

verus! {

/// The flag that a caller who wants the lock may write over the flag
/// `locked`: locked, over unlocked, and none over locked, where the caller
/// has to spin and look again.
pub open spec fn spec_on_lock(locked: bool) -> Option<bool> {
    if locked {
        None
    } else {
        Some(true)
    }
}

/// The flag that a caller who wants the lock may write, if there is one.
#[verifier::when_used_as_spec(spec_on_lock)]
pub fn on_lock(locked: bool) -> (next: Option<bool>)
    ensures
        next == spec_on_lock(locked),
{
    if locked {
        None
    } else {
        Some(true)
    }
}

/// The flag that the holder of the lock writes to release it: unlocked.
pub fn on_unlock() -> (next: bool)
    ensures
        !next,
{
    false
}

/// A mutual exclusion primitive.
pub struct Mutex<T> {
    // The data to be protected behind the Mutex
    data: T,
    // Tells if the Mutex has been locked by any code
    locked: bool,
}

/// A structure to give temporary access to data in a Mutex.
pub struct MutexGuard<'a, T> {
    /// The data in the Mutex
    pub data: &'a mut T,
    /// The flag that tells if the Mutex is locked
    pub locked: &'a mut bool,
}

impl<T> Mutex<T> {
    /// The data behind the Mutex.
    pub closed spec fn data(&self) -> T {
        self.data
    }

    /// Whether the Mutex is locked.
    pub closed spec fn locked(&self) -> bool {
        self.locked
    }

    /// Creates a new Mutex, unlocked.
    pub fn new(val: T) -> (mutex: Mutex<T>)
        ensures
            mutex.data() == val,
            !mutex.locked(),
    {
        Mutex { data: val, locked: false }
    }

    /// Whether the Mutex is locked.
    pub fn is_locked(&self) -> (locked: bool)
        ensures
            locked == self.locked(),
    {
        self.locked
    }

    /// Obtains mutually exclusive access to the data in an unlocked Mutex:
    /// the Mutex is locked until the guard unlocks it.
    pub fn lock(&mut self) -> (guard: MutexGuard<'_, T>)
        requires
            !old(self).locked(),
        ensures
            *guard.data == old(self).data(),
            *guard.locked,
            final(self).data() == *final(guard.data),
            final(self).locked() == *final(guard.locked),
    {
        self.locked = on_lock(self.locked).unwrap();
        MutexGuard { data: &mut self.data, locked: &mut self.locked }
    }

    /// Tries to take the Mutex: an unlocked Mutex is locked, and the guard
    /// gives access to the data. A locked Mutex stays as it is and gives
    /// `None`: the caller has to spin and try again.
    pub fn try_lock(&mut self) -> (guard: Option<MutexGuard<'_, T>>)
        ensures
            guard is Some <==> !old(self).locked(),
            guard is None ==> *final(self) == *old(self),
            guard matches Some(g) ==> {
                &&& *g.data == old(self).data()
                &&& *g.locked
                &&& final(self).data() == *final(g.data)
                &&& final(self).locked() == *final(g.locked)
            },
    {
        match on_lock(self.locked) {
            Some(next) => {
                self.locked = next;
                Some(MutexGuard { data: &mut self.data, locked: &mut self.locked })
            },
            None => None,
        }
    }
}

impl<'a, T> MutexGuard<'a, T> {
    /// The data in the Mutex.
    pub fn deref(&self) -> (data: &T)
        ensures
            *data == *old(self.data),
    {
        &*self.data
    }

    /// The data in the Mutex, for writing.
    pub fn deref_mut(&mut self) -> (data: &mut T)
        ensures
            *data == *old(self).data,
            *final(self).data == *final(data),
            *final(self).locked == *old(self).locked,
            *final(final(self).data) == *final(old(self).data),
            *final(final(self).locked) == *final(old(self).locked),
    {
        &mut *self.data
    }

    /// Releases the lock.
    pub fn unlock(self)
        ensures
            *final(self.locked) == false,
            *final(self.data) == *old(self.data),
    {
        *self.locked = on_unlock();
    }
}

} // verus!
