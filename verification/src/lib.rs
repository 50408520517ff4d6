//! A double-ended linked container.
//!
//! The nodes of a list live in an arena and name their neighbours by slot
//! index, so that the chain of `prev` and `next` links never forms a cycle of
//! owners. Payloads are handed out as shared, read-only handles.

mod arena;
mod chain;
pub mod laws;
pub mod linkedlist;
mod node;

pub use crate::linkedlist::{LinkedList, LinkedListIter};
