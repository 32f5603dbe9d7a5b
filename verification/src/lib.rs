//! In-place construction: build a value directly inside a place that does not
//! hold one yet, and keep track in the types of whether it holds one now.
//!
//! A place's storage is made of cells of `Option<T>`: a cell that is `None`
//! holds no value. A place is a handle to such storage ([`Place`]); [`Init`]
//! wraps a place that is known to hold a value; a [`Scope`](mem::Scope) brands
//! the view of a place that is lent to a constructor, so that the completion it
//! hands back is one for that very place; and [`Slice`](slice::Slice) fills a
//! slice-shaped place element by element.
pub mod init;
pub mod laws;
pub mod mem;
pub mod place;
pub mod protocol;
pub mod slice;
pub mod uninit;

use vstd::prelude::*;

pub use init::Init;
pub use mem::{BoxMem, Mem, Scope, ScopedMem};
pub use place::{Emplace, Place, RawPlace, Shape, SliceLike, SlicePlace, Slot};

verus! {

/// A value that stands in storage borrowed for `'s`, and belongs to the
/// holder of the `Own`.
pub type Own<'s, T> = Init<Mem<'s, T>>;

/// A value that stands in a place lent under the brand `'s`: what a
/// constructor hands back to say that it is done.
pub type ScopedRef<'s, T> = Init<ScopedMem<'s, T>>;

/// Storage for one `T`, holding none: a slot on the stack to build a value in.
pub fn stack_slot<T>() -> (r: Option<T>)
    ensures
        r is None,
{
    None
}

} // verus!

