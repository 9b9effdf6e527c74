//! A game that runs without an operating system, and what it stands on.
//!
//! The memory core: a first-fit heap allocator (`allocator`, with what holds
//! of it over whole histories in `heap_laws`) and the containers that take
//! their memory from it: an owning box (`boxed`), a growable array (`vec`), a
//! handle over closures of any type (`boxed_fn`) and the registry that
//! dispatches events to such closures (`event_hook`).
//!
//! The machine: the keyboard's scancodes (`keyboard`), the descriptor tables
//! (`gdt`, `interrupts`, `tss`), the interrupt controllers (`pics`, `port`),
//! the firmware's numbers and the screen (`uefi`), and the states of the
//! primitives that share data with interrupt handlers (`sync`).
//!
//! The game: pictures (`bitmap`), geometry (`math`) and the game's own
//! moves (`game`).
//!
//! The library computes and keeps books. It does not touch the machine:
//! where something is asked of a port, a register or the firmware, the
//! library says what is to be asked, and the caller asks.
pub mod allocator;
pub mod bitmap;
pub mod boxed;
pub mod boxed_fn;
pub mod event_hook;
pub mod game;
pub mod gdt;
pub mod heap_laws;
pub mod interrupts;
pub mod keyboard;
pub mod math;
pub mod pics;
pub mod port;
pub mod sync;
pub mod tss;
pub mod uefi;
pub mod vec;
