//! A small terminal task tracker, verified with Verus.
//!
//! The library holds everything with state-transition logic: the task model
//! and its status lifecycle, the list selection, the interactive session
//! state machine, the persisted text codec, and the pure renderer. Terminal
//! and file I/O live outside the library and exchange plain values with it.

pub mod render;
pub mod selection;
pub mod session;
pub mod store;
pub mod task;
pub mod update;
