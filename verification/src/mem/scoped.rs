//! `Scope` and `ScopedMem`: the brand of a construction, and a place lent
//! under it.
use core::marker::PhantomData;
use vstd::prelude::*;
use crate::init::Init;
use crate::mem::base::Mem;
use crate::place::{Place, RawPlace, Shape};
use crate::uninit::{UninitMut, UninitRef};

verus! {

/// The brand of one construction: a marker whose lifetime belongs to one call
/// and to no other. It holds nothing.
pub struct Scope<'scope> {
    brand: PhantomData<&'scope mut &'scope ()>,
}

/// A place lent to a constructor, under its scope's brand: the view of the
/// real place that the constructor fills.
pub struct ScopedMem<'scope, T: ?Sized + Shape> {
    mem: Mem<'scope, T>,
    brand: PhantomData<&'scope mut &'scope ()>,
}

impl<'s, T: ?Sized + Shape> ScopedMem<'s, T> {
    /// The reference that the place writes through: a borrow of the storage of
    /// the place that was lent.
    pub closed spec fn raw_mut(self) -> &'s mut T::Raw {
        self.mem.raw_mut()
    }

    /// Once nothing writes through the place any more, what it holds is what
    /// the storage is left with.
    pub proof fn lemma_resolved(self)
        requires
            has_resolved(self),
        ensures
            final(self.raw_mut())@ == self.raw_mut()@,
    {
        self.mem.lemma_resolved();
    }
}

impl<'s, T: ?Sized + Shape> RawPlace for ScopedMem<'s, T> {
    type Target = T;

    open spec fn wf(&self) -> bool {
        true
    }

    open spec fn contents(&self) -> <T::Raw as View>::V {
        self.raw_mut()@
    }

    open spec fn anchor(&self) -> Option<&mut T::Raw> {
        Some(self.raw_mut())
    }

    fn deref_place(&self) -> (r: UninitRef<'_, T>) {
        self.mem.deref_place()
    }

    fn deref_place_mut(&mut self) -> (r: UninitMut<'_, T>) {
        self.mem.deref_place_mut()
    }
}

impl<'s, T: ?Sized + Shape> Place for ScopedMem<'s, T> {
    type Init = Init<Self>;

    open spec fn owned(init: &Init<Self>) -> <T::Raw as View>::V {
        init.place().raw_mut()@
    }

    open spec fn owned_anchor(init: &Init<Self>) -> Option<&mut T::Raw> {
        Some(init.place().raw_mut())
    }

    fn assume_init(self) -> (r: Init<Self>) {
        Init::from_place(self)
    }
}

impl<'s> Scope<'s> {
    /// A scope out of nothing. Its lifetime is whatever the caller makes of
    /// it, so only a caller that lets no second scope share it may call this.
    pub(crate) fn forge() -> Self {
        Scope { brand: PhantomData }
    }

    /// Puts this scope's brand on a view that was borrowed for it.
    pub(crate) fn lend<T: ?Sized + Shape>(&self, view: UninitMut<'s, T>) -> (r: ScopedMem<'s, T>)
        ensures
            r.raw_mut()@ == view@,
            final(r.raw_mut())@ == final(view.anchor())@,
    {
        ScopedMem { mem: Mem::new(view), brand: PhantomData }
    }

    /// Lends `place` under this scope's brand. What the view leaves in the
    /// storage is what `place` holds afterwards.
    pub fn borrow<P: RawPlace>(&self, place: &'s mut P) -> (r: ScopedMem<'s, P::Target>)
        requires
            old(place).wf(),
        ensures
            r.raw_mut()@ == old(place).contents(),
            final(place).contents() == final(r.raw_mut())@,
            final(place).wf(),
            final(place).anchor() is Some <==> old(place).anchor() is Some,
            old(place).anchor() is Some ==> final(final(place).anchor().unwrap())@ == final(old(place).anchor().unwrap())@,
    {
        ScopedMem { mem: Mem::new(place.deref_place_mut()), brand: PhantomData }
    }
}

} // verus!
