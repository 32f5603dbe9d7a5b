//! `BoxMem`: a place in storage on the heap.
use vstd::layout::size_of;
use vstd::prelude::*;
use crate::place::{Emplace, Place, RawPlace, Shape, Slot};
use crate::uninit::{UninitMut, UninitRef};

verus! {

/// A place in storage on the heap, which the place owns. Finalized, it is a
/// `Box` of what was built.
pub struct BoxMem<T: ?Sized + Shape> {
    raw: Box<T::Raw>,
}

/// `Vec::into_boxed_slice` of std: the box holds the vector's elements, in
/// their order.
#[verifier::external_body]
fn into_boxed_slice<T>(v: Vec<T>) -> (b: Box<[T]>)
    ensures
        b@ == v@,
{
    v.into_boxed_slice()
}

impl<T: ?Sized + Shape> BoxMem<T> {
    /// What the storage holds now.
    pub closed spec fn view(&self) -> <T::Raw as View>::V {
        self.raw@
    }
}

impl<T> BoxMem<T> {
    /// Fresh storage for one `T`, holding none.
    pub fn allocate() -> (r: Self)
        ensures
            r@ is None,
    {
        BoxMem { raw: Box::new(None) }
    }
}

impl<T> BoxMem<[T]> {
    /// Storage of `len` cells can be had: the cells together take no more
    /// bytes than an allocation may have.
    pub open spec fn fits(len: usize) -> bool {
        len * size_of::<Option<T>>() <= isize::MAX
    }

    /// Fresh storage for `len` values of `T`, holding none, where storage of
    /// that many cells can be had, and nothing where it cannot.
    pub fn try_alloc_slice(len: usize) -> (r: Option<Self>)
        ensures
            r is Some <==> Self::fits(len),
            r matches Some(place) ==> place@ == Seq::new(len as nat, |i: int| None::<T>),
    {
        let size = core::mem::size_of::<Option<T>>();
        let most: usize = isize::MAX as usize;
        if size == 0 {
            assert(Self::fits(len)) by (nonlinear_arith)
                requires
                    size_of::<Option<T>>() == 0,
            ;
            Some(Self::alloc_slice(len))
        } else if len <= most / size {
            assert(len * size <= most) by (nonlinear_arith)
                requires
                    size > 0,
                    len <= most / size,
            ;
            Some(Self::alloc_slice(len))
        } else {
            assert(len * size > most) by (nonlinear_arith)
                requires
                    size > 0,
                    len > most / size,
            ;
            None
        }
    }

    /// Fresh storage for `len` values of `T`, holding none. The cells
    /// together must take no more bytes than an allocation may have.
    pub fn alloc_slice(len: usize) -> (r: Self)
        requires
            Self::fits(len),
        ensures
            r@ == Seq::new(len as nat, |i: int| None::<T>),
    {
        let mut cells: Vec<Option<T>> = Vec::with_capacity(len);
        let mut i: usize = 0;
        while i < len
            invariant
                i <= len,
                cells@.len() == i,
                forall|j: int| 0 <= j < i ==> (#[trigger] cells@[j]) is None,
            decreases len - i,
        {
            cells.push(None);
            i += 1;
        }
        assert(cells@ =~= Seq::new(len as nat, |i: int| None::<T>));
        BoxMem { raw: into_boxed_slice(cells) }
    }
}

impl<T: ?Sized + Shape> RawPlace for BoxMem<T> {
    type Target = T;

    open spec fn wf(&self) -> bool {
        true
    }

    open spec fn contents(&self) -> <T::Raw as View>::V {
        self@
    }

    open spec fn anchor(&self) -> Option<&mut T::Raw> {
        None
    }

    fn deref_place(&self) -> (r: UninitRef<'_, T>) {
        let r = UninitRef::new(&*self.raw);
        assert(self.contents() == self.raw@);
        r
    }

    fn deref_place_mut(&mut self) -> (r: UninitMut<'_, T>) {
        assert(self.contents() == self.raw@);
        UninitMut::new(&mut *self.raw)
    }
}

impl<T> Place for BoxMem<T> {
    type Init = Box<T>;

    open spec fn owned(init: &Box<T>) -> Option<T> {
        Some(**init)
    }

    open spec fn owned_anchor(init: &Box<T>) -> Option<&mut Option<T>> {
        None
    }

    fn assume_init(self) -> (r: Box<T>) {
        let BoxMem { mut raw } = self;
        Box::new(raw.take().unwrap())
    }
}

impl<T> Place for BoxMem<[T]> {
    type Init = Box<[T]>;

    open spec fn owned(init: &Box<[T]>) -> Seq<Option<T>> {
        init@.map_values(|v: T| Some(v))
    }

    open spec fn owned_anchor(init: &Box<[T]>) -> Option<&mut [Option<T>]> {
        None
    }

    fn assume_init(self) -> (r: Box<[T]>) {
        let BoxMem { raw } = self;
        let mut cells: Vec<Option<T>> = raw.into_vec();
        let ghost held = cells@;
        let n = cells.len();
        let mut values: Vec<T> = Vec::with_capacity(n);
        let mut i: usize = 0;
        while i < n
            invariant
                i <= n,
                n == held.len(),
                cells@.len() == n,
                values@.len() == i,
                forall|j: int| 0 <= j < i ==> held[j] == Some(#[trigger] values@[j]),
                forall|j: int| i <= j < n ==> cells@[j] == #[trigger] held[j],
                forall|j: int| 0 <= j < n ==> (#[trigger] held[j]) is Some,
            decreases n - i,
        {
            assert(cells@[i as int] == held[i as int]);
            let cell = cells[i].take();
            values.push(cell.unwrap());
            i += 1;
        }
        assert(values@.map_values(|v: T| Some(v)) =~= held);
        into_boxed_slice(values)
    }
}

impl<T> Emplace for Box<T> {
    type Place = BoxMem<T>;

    fn emplace() -> (r: BoxMem<T>) {
        BoxMem::allocate()
    }
}

impl<T> Slot<Box<T>> for Box<Option<T>> {
    type Place = BoxMem<T>;

    open spec fn slot_wf(&self) -> bool {
        true
    }

    open spec fn slot_contents(&self) -> Option<T> {
        **self
    }

    open spec fn slot_anchor(&self) -> Option<&mut Option<T>> {
        None
    }

    fn into_place(self) -> (p: BoxMem<T>) {
        let p = BoxMem { raw: self };
        assert(p.wf() && p.contents() == self.slot_contents());
        assert(p.anchor() is None && self.slot_anchor() is None);
        p
    }
}

} // verus!
