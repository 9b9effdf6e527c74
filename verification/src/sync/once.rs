//! A value that is initialized at runtime, once and only once.
use vstd::prelude::*;

verus! {

/// Tells the state of a Once.
#[derive(Clone, Copy, Debug, PartialEq, Eq, Structural)]
pub enum OnceStatus {
    /// The data in the Once is uninitialized
    Uninit,
    /// The data in the Once has been initialized
    Init,
    /// The initializer function is running
    Running,
    /// The initializer panicked
    Panicked,
}

impl OnceStatus {
    /// The byte that stands for the status.
    pub open spec fn spec_code(self) -> u8 {
        match self {
            OnceStatus::Uninit => 0,
            OnceStatus::Init => 1,
            OnceStatus::Running => 2,
            OnceStatus::Panicked => 3,
        }
    }

    /// Interpret a `u8` as a `OnceStatus`.
    pub fn new(status: u8) -> (s: OnceStatus)
        requires
            status <= 3,
        ensures
            s.spec_code() == status,
    {
        if status == 0 {
            OnceStatus::Uninit
        } else if status == 1 {
            OnceStatus::Init
        } else if status == 2 {
            OnceStatus::Running
        } else {
            OnceStatus::Panicked
        }
    }

    /// The byte that stands for the status.
    #[verifier::when_used_as_spec(spec_code)]
    pub fn code(self) -> (code: u8)
        ensures
            code == self.spec_code(),
    {
        match self {
            OnceStatus::Uninit => 0,
            OnceStatus::Init => 1,
            OnceStatus::Running => 2,
            OnceStatus::Panicked => 3,
        }
    }

    /// The status that a caller who wants to initialize may move the Once
    /// to: running, from uninitialized, and none from any other status.
    pub open spec fn spec_claim(self) -> Option<OnceStatus> {
        if self == OnceStatus::Uninit {
            Some(OnceStatus::Running)
        } else {
            None
        }
    }

    /// The status that a caller who wants to initialize may move the Once
    /// to, if there is one.
    #[verifier::when_used_as_spec(spec_claim)]
    pub fn claim(self) -> (next: Option<OnceStatus>)
        ensures
            next == self.spec_claim(),
    {
        match self {
            OnceStatus::Uninit => Some(OnceStatus::Running),
            // Don't do anything if the Once is in any other state
            _ => None,
        }
    }

    /// The status that ends a running initialization: initialized when the
    /// initializer returned, panicked when it did not.
    pub open spec fn spec_ended(panicked: bool) -> OnceStatus {
        if panicked {
            OnceStatus::Panicked
        } else {
            OnceStatus::Init
        }
    }

    /// The status that ends a running initialization.
    #[verifier::when_used_as_spec(spec_ended)]
    pub fn ended(panicked: bool) -> (next: OnceStatus)
        ensures
            next == OnceStatus::spec_ended(panicked),
    {
        if panicked {
            OnceStatus::Panicked
        } else {
            OnceStatus::Init
        }
    }

    /// What a reader who finds this status does.
    pub open spec fn spec_reader(self) -> Reader {
        match self {
            OnceStatus::Init => Reader::Read,
            OnceStatus::Running => Reader::Spin,
            OnceStatus::Uninit => Reader::Fail(NOT_INITIALIZED),
            OnceStatus::Panicked => Reader::Fail(POISONED),
        }
    }

    /// What a reader who finds this status does.
    #[verifier::when_used_as_spec(spec_reader)]
    pub fn reader(self) -> (step: Reader)
        ensures
            step == self.spec_reader(),
    {
        match self {
            OnceStatus::Init => Reader::Read,
            OnceStatus::Running => Reader::Spin,
            OnceStatus::Uninit => Reader::Fail(NOT_INITIALIZED),
            OnceStatus::Panicked => Reader::Fail(POISONED),
        }
    }
}

/// What a reader of a Once does next.
#[derive(Clone, Copy, Debug, PartialEq, Eq)]
pub enum Reader {
    /// The data is initialized: read it
    Read,
    /// The initializer is running: spin and look again
    Spin,
    /// There is no data and there will be none: give up, with this message
    Fail(&'static str),
}

/// The status of a Once, held as its byte.
pub struct AtomicStatus(u8);

impl AtomicStatus {
    #[verifier::type_invariant]
    spec fn is_status(self) -> bool {
        self.0 <= 3
    }

    /// The status that is held.
    pub closed spec fn status(self) -> OnceStatus {
        if self.0 == 0 {
            OnceStatus::Uninit
        } else if self.0 == 1 {
            OnceStatus::Init
        } else if self.0 == 2 {
            OnceStatus::Running
        } else {
            OnceStatus::Panicked
        }
    }

    /// Creates a new AtomicStatus from a OnceStatus.
    pub fn new(status: OnceStatus) -> (s: AtomicStatus)
        ensures
            s.status() == status,
    {
        AtomicStatus(status.code())
    }

    /// Reads the status.
    pub fn load(&self) -> (status: OnceStatus)
        ensures
            status == self.status(),
    {
        proof {
            use_type_invariant(self);
        }
        OnceStatus::new(self.0)
    }

    /// Writes the status.
    pub fn store(&mut self, val: OnceStatus)
        ensures
            final(self).status() == val,
    {
        self.0 = val.code();
    }

    /// Writes the status `new` if the status is `current`. Returns the
    /// status that was found: in `Ok` if it was `current` and `new` was
    /// written, in `Err` if it was another and nothing was written.
    pub fn compare_exchange(&mut self, current: OnceStatus, new: OnceStatus) -> (r: Result<
        OnceStatus,
        OnceStatus,
    >)
        ensures
            old(self).status() == current ==> r == Ok::<OnceStatus, OnceStatus>(current)
                && final(self).status() == new,
            old(self).status() != current ==> r == Err::<OnceStatus, OnceStatus>(
                old(self).status(),
            ) && final(self).status() == old(self).status(),
    {
        proof {
            use_type_invariant(&*self);
        }
        let found = OnceStatus::new(self.0);
        if self.0 == current.code() {
            self.0 = new.code();
            Ok(found)
        } else {
            Err(found)
        }
    }
}

/// What a reader of a Once finds.
#[derive(Debug, PartialEq, Eq)]
pub enum Access<'a, T> {
    /// The data is initialized: here it is
    Ready(&'a T),
    /// The initializer is running: the reader has to spin and look again
    Spin,
    /// The Once has not been initialized: the reader cannot go on
    NotInitialized,
    /// The initializer panicked: the reader cannot go on
    Poisoned,
}

/// The message of a reader that finds the Once uninitialized.
pub const NOT_INITIALIZED: &'static str = "Once has not been initialized";

/// The message of a reader that finds the Once poisoned.
pub const POISONED: &'static str = "Once initializer panicked";

/// A structure that allows for a one-time initialization of values at
/// runtime.
pub struct Once<T> {
    // The data that will be initialized at runtime
    data: Option<T>,
    // The status of the data
    status: AtomicStatus,
}

impl<T> Once<T> {
    /// The status of the Once.
    pub closed spec fn status(&self) -> OnceStatus {
        self.status.status()
    }

    /// The data of the Once, if there is any.
    pub closed spec fn data(&self) -> Option<T> {
        self.data
    }

    /// The invariant of the Once: it has data exactly when it is
    /// initialized.
    pub open spec fn wf(&self) -> bool {
        self.status() == OnceStatus::Init <==> self.data() is Some
    }

    /// Creates a new Once, uninitialized.
    pub fn new() -> (once: Once<T>)
        ensures
            once.wf(),
            once.status() == OnceStatus::Uninit,
            once.data() is None,
    {
        Once { status: AtomicStatus::new(OnceStatus::Uninit), data: None }
    }

    /// Retrieves the data if it has been initialized.
    pub fn get(&self) -> (data: Option<&T>)
        requires
            self.wf(),
        ensures
            data is Some <==> self.status() == OnceStatus::Init,
            data matches Some(value) ==> self.data() == Some(*value),
    {
        match self.status.load() {
            OnceStatus::Init => self.data.as_ref(),
            _ => None,
        }
    }

    /// Claims the initialization: an uninitialized Once starts running,
    /// and the caller, who is told `true`, has to run the initializer and
    /// then `finish` or `poison`. A Once in any other state stays as it is.
    pub fn begin(&mut self) -> (claimed: bool)
        requires
            old(self).wf(),
        ensures
            final(self).wf(),
            claimed == (old(self).status() == OnceStatus::Uninit),
            final(self).status() == if claimed {
                OnceStatus::Running
            } else {
                old(self).status()
            },
            final(self).data() == old(self).data(),
    {
        let current = self.status.load();
        match current.claim() {
            Some(next) => self.status.compare_exchange(current, next).is_ok(),
            None => false,
        }
    }

    /// Ends a running initialization with the value that the initializer
    /// returned.
    pub fn finish(&mut self, val: T)
        requires
            old(self).wf(),
            old(self).status() == OnceStatus::Running,
        ensures
            final(self).wf(),
            final(self).status() == OnceStatus::Init,
            final(self).data() == Some(val),
    {
        self.data = Some(val);
        self.status.store(OnceStatus::ended(false));
    }

    /// Ends a running initialization whose initializer panicked: the Once
    /// is poisoned for good.
    pub fn poison(&mut self)
        requires
            old(self).wf(),
            old(self).status() == OnceStatus::Running,
        ensures
            final(self).wf(),
            final(self).status() == OnceStatus::Panicked,
            final(self).data() is None,
    {
        self.status.store(OnceStatus::ended(true));
    }

    /// Performs an initialization routine once and only once: an
    /// uninitialized Once runs `f` and holds what it returns, a Once in any
    /// other state stays as it is and does not run `f`. An initializer that
    /// panics leaves the Once running: the caller who catches the panic has
    /// to `poison` it.
    pub fn call_once<F: FnOnce() -> T>(&mut self, f: F)
        requires
            old(self).wf(),
            call_requires(f, ()),
        ensures
            final(self).wf(),
            old(self).status() == OnceStatus::Uninit ==> final(self).status() == OnceStatus::Init
                && final(self).data() is Some && call_ensures(f, (), final(self).data()->0),
            old(self).status() != OnceStatus::Uninit ==> final(self).status() == old(self).status()
                && final(self).data() == old(self).data(),
    {
        if self.begin() {
            let val = f();
            self.finish(val);
        }
    }

    /// What a reader finds: the data, or the reason why there is none.
    pub fn access(&self) -> (access: Access<'_, T>)
        requires
            self.wf(),
        ensures
            access == match self.status() {
                OnceStatus::Init => Access::Ready(&self.data()->0),
                OnceStatus::Running => Access::Spin,
                OnceStatus::Uninit => Access::NotInitialized,
                OnceStatus::Panicked => Access::Poisoned,
            },
    {
        let status = self.status.load();
        match status.reader() {
            Reader::Read => match self.data.as_ref() {
                Some(value) => Access::Ready(value),
                None => Access::NotInitialized,
            },
            Reader::Spin => Access::Spin,
            Reader::Fail(_) => match status {
                OnceStatus::Panicked => Access::Poisoned,
                _ => Access::NotInitialized,
            },
        }
    }

    /// The data of an initialized Once.
    pub fn deref(&self) -> (value: &T)
        requires
            self.wf(),
            self.status() == OnceStatus::Init,
        ensures
            self.data() == Some(*value),
    {
        self.data.as_ref().unwrap()
    }
}

} // verus!
