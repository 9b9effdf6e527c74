use blasterball::sync::mutex::{on_lock, on_unlock, Mutex};
use blasterball::sync::once::{Access, AtomicStatus, Once, OnceStatus, Reader};

#[test]
fn test_init_once() {
    let mut val: Once<i32> = Once::new();
    val.call_once(|| 5);
    assert_eq!(*val.deref(), 5);
    val.call_once(|| 10000000);
    assert_eq!(*val.deref(), 5);
}

#[test]
#[should_panic]
fn test_panic() {
    let val: Once<i32> = Once::new();
    assert_eq!(*val.deref(), 5);
}

#[test]
fn test_mutex() {
    let mut no: Mutex<i32> = Mutex::new(0);
    for _ in 0..10 {
        let mut guard = no.lock();
        *guard.deref_mut() += 1;
        guard.unlock();
    }
    let guard = no.lock();
    assert_eq!(*guard.deref(), 10);
}

#[test]
fn a_locked_mutex_cannot_be_taken() {
    let mut mutex = Mutex::new('a');
    let guard = mutex.try_lock().unwrap();
    // The guard goes without unlocking
    let _ = guard;
    assert!(mutex.is_locked());
    assert!(mutex.try_lock().is_none());
    assert!(mutex.try_lock().is_none());
}

#[test]
fn an_unlocked_mutex_can_be_taken_again() {
    let mut mutex = Mutex::new(1u8);
    assert!(!mutex.is_locked());
    let mut guard = mutex.try_lock().unwrap();
    *guard.deref_mut() = 2;
    guard.unlock();
    assert!(!mutex.is_locked());
    let guard = mutex.try_lock().unwrap();
    assert_eq!(*guard.deref(), 2);
}

#[test]
fn the_status_byte() {
    for (status, code) in [
        (OnceStatus::Uninit, 0),
        (OnceStatus::Init, 1),
        (OnceStatus::Running, 2),
        (OnceStatus::Panicked, 3),
    ] {
        assert_eq!(status.code(), code);
        assert_eq!(OnceStatus::new(code), status);
        assert_eq!(AtomicStatus::new(status).load(), status);
    }
}

#[test]
fn compare_exchange_writes_only_over_the_expected_status() {
    let mut status = AtomicStatus::new(OnceStatus::Uninit);
    assert_eq!(
        status.compare_exchange(OnceStatus::Uninit, OnceStatus::Running),
        Ok(OnceStatus::Uninit)
    );
    assert_eq!(status.load(), OnceStatus::Running);
    assert_eq!(
        status.compare_exchange(OnceStatus::Uninit, OnceStatus::Init),
        Err(OnceStatus::Running)
    );
    assert_eq!(status.load(), OnceStatus::Running);
    status.store(OnceStatus::Panicked);
    assert_eq!(status.load(), OnceStatus::Panicked);
}

#[test]
fn a_reader_finds_the_state_of_the_once() {
    let mut once: Once<u64> = Once::new();
    assert_eq!(once.access(), Access::NotInitialized);
    assert_eq!(once.get(), None);
    assert!(once.begin());
    assert_eq!(once.access(), Access::Spin);
    assert_eq!(once.get(), None);
    // The initialization is claimed once
    assert!(!once.begin());
    once.finish(77);
    assert_eq!(once.access(), Access::Ready(&77));
    assert_eq!(once.get(), Some(&77));
    assert!(!once.begin());
    assert_eq!(once.access(), Access::Ready(&77));
}

#[test]
fn a_poisoned_once_stays_poisoned() {
    let mut once: Once<u64> = Once::new();
    assert!(once.begin());
    once.poison();
    assert_eq!(once.access(), Access::Poisoned);
    assert_eq!(once.get(), None);
    assert!(!once.begin());
    once.call_once(|| 3);
    assert_eq!(once.access(), Access::Poisoned);
}

#[test]
fn only_an_uninitialized_once_can_be_claimed() {
    assert_eq!(OnceStatus::Uninit.claim(), Some(OnceStatus::Running));
    assert_eq!(OnceStatus::Running.claim(), None);
    assert_eq!(OnceStatus::Init.claim(), None);
    assert_eq!(OnceStatus::Panicked.claim(), None);
}

#[test]
fn an_initialization_ends_initialized_or_panicked() {
    assert_eq!(OnceStatus::ended(false), OnceStatus::Init);
    assert_eq!(OnceStatus::ended(true), OnceStatus::Panicked);
}

#[test]
fn a_reader_reads_spins_or_fails() {
    assert_eq!(OnceStatus::Init.reader(), Reader::Read);
    assert_eq!(OnceStatus::Running.reader(), Reader::Spin);
    assert_eq!(OnceStatus::Uninit.reader(), Reader::Fail("Once has not been initialized"));
    assert_eq!(OnceStatus::Panicked.reader(), Reader::Fail("Once initializer panicked"));
}

#[test]
fn the_lock_flag_is_written_over_unlocked_only() {
    assert_eq!(on_lock(false), Some(true));
    assert_eq!(on_lock(true), None);
    assert_eq!(on_unlock(), false);
}
