//! `Mem`: a place in borrowed storage.
use vstd::prelude::*;
use crate::init::Init;
use crate::place::{Place, RawPlace, Shape, Slot};
use crate::uninit::{UninitMut, UninitRef};

verus! {

/// A place in storage that somebody else owns, borrowed for `'s`.
pub struct Mem<'s, T: ?Sized + Shape> {
    raw: &'s mut T::Raw,
}

impl<'s, T: ?Sized + Shape> Mem<'s, T> {
    /// The reference that the place writes through.
    pub closed spec fn raw_mut(self) -> &'s mut T::Raw {
        self.raw
    }

    /// Once nothing writes through the place any more, what it holds is what
    /// the storage is left with.
    pub proof fn lemma_resolved(self)
        requires
            has_resolved(self),
        ensures
            final(self.raw_mut())@ == self.raw_mut()@,
    {
    }

    /// The place that `uninit` views.
    pub fn new(uninit: UninitMut<'s, T>) -> (r: Self)
        ensures
            r.raw_mut()@ == uninit@,
            final(r.raw_mut())@ == final(uninit.anchor())@,
    {
        Mem { raw: uninit.into_raw() }
    }

    /// The place that `raw` refers to.
    pub fn from_raw(raw: &'s mut T::Raw) -> (r: Self)
        ensures
            r.raw_mut()@ == old(raw)@,
            final(r.raw_mut())@ == final(raw)@,
    {
        Mem { raw }
    }

    /// Gives the reference back.
    pub fn into_raw(self) -> (r: &'s mut T::Raw)
        ensures
            r@ == self.raw_mut()@,
            final(r)@ == final(self.raw_mut())@,
    {
        self.raw
    }
}

impl<'s, T: ?Sized + Shape> RawPlace for Mem<'s, T> {
    type Target = T;

    open spec fn wf(&self) -> bool {
        true
    }

    open spec fn contents(&self) -> <T::Raw as View>::V {
        self.raw_mut()@
    }

    open spec fn anchor(&self) -> Option<&mut T::Raw> {
        Some(self.raw_mut())
    }

    fn deref_place(&self) -> (r: UninitRef<'_, T>) {
        let r = UninitRef::new(&*self.raw);
        assert(self.contents() == self.raw@);
        r
    }

    fn deref_place_mut(&mut self) -> (r: UninitMut<'_, T>) {
        UninitMut::new(&mut *self.raw)
    }
}

impl<'s, T: ?Sized + Shape> Place for Mem<'s, T> {
    type Init = Init<Self>;

    open spec fn owned(init: &Init<Self>) -> <T::Raw as View>::V {
        init.place().raw_mut()@
    }

    open spec fn owned_anchor(init: &Init<Self>) -> Option<&mut T::Raw> {
        Some(init.place().raw_mut())
    }

    fn assume_init(self) -> (r: Init<Self>) {
        Init::from_place(self)
    }
}

impl<'s, T> Slot<Init<Mem<'s, T>>> for &'s mut Option<T> {
    type Place = Mem<'s, T>;

    open spec fn slot_wf(&self) -> bool {
        true
    }

    open spec fn slot_contents(&self) -> Option<T> {
        **self
    }

    open spec fn slot_anchor(&self) -> Option<&mut Option<T>> {
        Some(*self)
    }

    fn into_place(self) -> (p: Mem<'s, T>) {
        let ghost held = *self;
        assert(self.slot_contents() == held);
        let p = Mem::from_raw(self);
        assert(p.wf() && p.contents() == held);
        assert(p.anchor() == Some(p.raw_mut()));
        p
    }
}

impl<'s, T: ?Sized + Shape> Slot<Init<Mem<'s, T>>> for UninitMut<'s, T> {
    type Place = Mem<'s, T>;

    open spec fn slot_wf(&self) -> bool {
        true
    }

    open spec fn slot_contents(&self) -> <T::Raw as View>::V {
        self@
    }

    open spec fn slot_anchor(&self) -> Option<&mut T::Raw> {
        Some(self.anchor())
    }

    fn into_place(self) -> (p: Mem<'s, T>) {
        let p = Mem::new(self);
        assert(p.wf() && p.contents() == self.slot_contents());
        assert(p.anchor() == Some(p.raw_mut()));
        p
    }
}

} // verus!
