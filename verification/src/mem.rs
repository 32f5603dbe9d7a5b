//! The places of this library: borrowed storage, borrowed storage under a
//! scope's brand, and storage on the heap.
pub mod base;
pub mod heap;
pub mod scoped;

pub use base::Mem;
pub use heap::BoxMem;
pub use scoped::{Scope, ScopedMem};
