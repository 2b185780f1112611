//! A checker for the aliasing rules of an interpreted program, with the
//! emulation of thread-local storage and the tables of the foreign
//! functions that the interpreter stands in for.
//!
//! For every byte of every allocation a borrow stack says which pointers
//! may still be used. An access, a retag or a deallocation is checked
//! against the stacks of the bytes it covers; what breaks the rules is
//! reported with what the history of the allocation tells of the pointer.

pub mod item;
pub mod place;
pub mod text;
pub mod global;
pub mod stack;
pub mod history;
pub mod diagnostics;
pub mod request;
pub mod stacks;
pub mod laws;
pub mod order;
pub mod shims;
pub mod tls;
