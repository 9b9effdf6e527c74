//! What a single context that interrupts can preempt needs to share state:
//! a lock, and a value that is initialized once.
//!
//! The library holds the states and their transitions. It does not wait:
//! where a transition cannot be made yet, it says so, and the caller spins.
pub mod mutex;
pub mod once;
