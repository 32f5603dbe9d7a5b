//! Views of storage that may hold no value: `UninitRef` reads it, `UninitMut`
//! reads and writes it. Neither says whether a value is there. `Uninit` holds
//! a place as one that is still to be filled.
use vstd::prelude::*;
use crate::init::Init;
use crate::place::{RawPlace, Shape};

verus! {

/// A shared view of storage that may hold no value.
pub struct UninitRef<'a, T: ?Sized + Shape> {
    raw: &'a T::Raw,
}

/// An exclusive view of storage that may hold no value.
pub struct UninitMut<'a, T: ?Sized + Shape> {
    raw: &'a mut T::Raw,
}

impl<'a, T: ?Sized + Shape> View for UninitRef<'a, T> {
    type V = <T::Raw as View>::V;

    closed spec fn view(&self) -> Self::V {
        self.raw@
    }
}

impl<'a, T: ?Sized + Shape> Clone for UninitRef<'a, T> {
    fn clone(&self) -> (r: Self)
        ensures
            r@ == self@,
    {
        UninitRef { raw: self.raw }
    }
}

impl<'a, T: ?Sized + Shape> Copy for UninitRef<'a, T> {

}

impl<'a, T: ?Sized + Shape> UninitRef<'a, T> {
    /// A view of `raw`.
    pub fn new(raw: &'a T::Raw) -> (r: Self)
        ensures
            r@ == raw@,
    {
        UninitRef { raw }
    }

    /// The storage, for the time of this borrow.
    pub fn as_ptr(&self) -> (r: &T::Raw)
        ensures
            r@ == self@,
    {
        self.raw
    }

    /// The storage, for as long as the view may live.
    pub fn as_non_null(&self) -> (r: &'a T::Raw)
        ensures
            r@ == self@,
    {
        self.raw
    }
}

impl<'a, T> UninitRef<'a, T> {
    /// The cell itself.
    pub fn as_uninit(&self) -> (r: &Option<T>)
        ensures
            *r == self@,
    {
        self.raw
    }

    /// The cell itself, for as long as the view may live.
    pub fn into_uninit(self) -> (r: &'a Option<T>)
        ensures
            *r == self@,
    {
        self.raw
    }

    /// The value in the cell.
    pub fn as_ref(&self) -> (r: &T)
        requires
            self@ is Some,
        ensures
            self@ == Some(*r),
    {
        self.raw.as_ref().unwrap()
    }

    /// The value in the cell, for as long as the view may live.
    pub fn into_ref(self) -> (r: &'a T)
        requires
            self@ is Some,
        ensures
            self@ == Some(*r),
    {
        self.raw.as_ref().unwrap()
    }

    /// A copy of the value in the cell.
    pub fn read(self) -> (r: T) where T: Copy
        requires
            self@ is Some,
        ensures
            self@ == Some(r),
    {
        *self.raw.as_ref().unwrap()
    }
}

impl<'a, T: ?Sized + Shape> View for UninitMut<'a, T> {
    type V = <T::Raw as View>::V;

    closed spec fn view(&self) -> Self::V {
        self.raw@
    }
}

impl<'a, T: ?Sized + Shape> UninitMut<'a, T> {
    /// The reference that this view writes through. Its final value is what
    /// the storage is left with once the view is gone.
    pub closed spec fn anchor(self) -> &'a mut T::Raw {
        self.raw
    }

    /// Once nothing writes through the view any more, what it holds is what
    /// the storage is left with.
    pub proof fn lemma_resolved(self)
        requires
            has_resolved(self),
        ensures
            final(self.anchor())@ == self@,
    {
    }

    /// A view of `raw`.
    pub fn new(raw: &'a mut T::Raw) -> (r: Self)
        ensures
            r@ == old(raw)@,
            final(r.anchor())@ == final(raw)@,
    {
        UninitMut { raw }
    }

    /// Gives the reference back.
    pub fn into_raw(self) -> (r: &'a mut T::Raw)
        ensures
            r@ == self@,
            final(r)@ == final(self.anchor())@,
    {
        self.raw
    }

    /// A shared view of the same storage.
    pub fn borrow(&self) -> (r: UninitRef<'_, T>)
        ensures
            r@ == self@,
    {
        UninitRef { raw: &*self.raw }
    }

    /// A second exclusive view of the same storage, for the time of this
    /// borrow. What it leaves in the storage is what this view then holds.
    pub fn borrow_mut(&mut self) -> (r: UninitMut<'_, T>)
        ensures
            r@ == old(self)@,
            final(self)@ == final(r.anchor())@,
            final(final(self).anchor())@ == final(old(self).anchor())@,
    {
        UninitMut { raw: &mut *self.raw }
    }

    /// The storage, to read.
    pub fn as_ptr(&self) -> (r: &T::Raw)
        ensures
            r@ == self@,
    {
        &*self.raw
    }

    /// The storage, to write.
    pub fn as_mut_ptr(&mut self) -> (r: &mut T::Raw)
        ensures
            r@ == old(self)@,
            final(self)@ == final(r)@,
            final(final(self).anchor())@ == final(old(self).anchor())@,
    {
        &mut *self.raw
    }

    /// The storage, to write.
    pub fn as_non_null(&mut self) -> (r: &mut T::Raw)
        ensures
            r@ == old(self)@,
            final(self)@ == final(r)@,
            final(final(self).anchor())@ == final(old(self).anchor())@,
    {
        &mut *self.raw
    }

    /// Destroys what the storage holds.
    pub fn drop_in_place(&mut self)
        ensures
            final(self)@ == T::vacated(old(self)@),
            final(final(self).anchor())@ == final(old(self).anchor())@,
    {
        T::drop_in_place(&mut *self.raw);
    }
}

impl<'a, T> UninitMut<'a, T> {
    /// The cell itself.
    pub fn as_uninit(&mut self) -> (r: &mut Option<T>)
        ensures
            *r == old(self)@,
            final(self)@ == *final(r),
            *final(final(self).anchor()) == *final(old(self).anchor()),
    {
        &mut *self.raw
    }

    /// The cell itself, for as long as the view may live.
    pub fn into_uninit(self) -> (r: &'a mut Option<T>)
        ensures
            *r == self@,
            *final(r) == *final(self.anchor()),
    {
        self.raw
    }

    /// The value in the cell.
    pub fn as_ref(&self) -> (r: &T)
        requires
            self@ is Some,
        ensures
            self@ == Some(*r),
    {
        self.raw.as_ref().unwrap()
    }

    /// The value in the cell, to change.
    pub fn as_mut(&mut self) -> (r: &mut T)
        requires
            old(self)@ is Some,
        ensures
            old(self)@ == Some(*r),
            final(self)@ == Some(*final(r)),
            *final(final(self).anchor()) == *final(old(self).anchor()),
    {
        self.raw.as_mut().unwrap()
    }

    /// The value in the cell, to change, for as long as the view may live.
    pub fn into_mut(self) -> (r: &'a mut T)
        requires
            self@ is Some,
        ensures
            self@ == Some(*r),
            *final(self.anchor()) == Some(*final(r)),
    {
        self.raw.as_mut().unwrap()
    }

    /// Moves the value out of the cell, which then holds none.
    pub fn read(&mut self) -> (r: T)
        requires
            old(self)@ is Some,
        ensures
            old(self)@ == Some(r),
            final(self)@ is None,
            *final(final(self).anchor()) == *final(old(self).anchor()),
    {
        self.raw.take().unwrap()
    }

    /// Puts `value` into the cell, over whatever it held.
    pub fn write(&mut self, value: T) -> (r: &mut T)
        ensures
            *r == value,
            final(self)@ == Some(*final(r)),
            *final(final(self).anchor()) == *final(old(self).anchor()),
    {
        self.raw.insert(value)
    }
}

/// A place held as one that holds no value yet: whatever its storage holds
/// is nobody's, and `set` is what turns it into an [`Init`].
pub struct Uninit<P: RawPlace> {
    place: P,
}

impl<P: RawPlace> Uninit<P> {
    /// The place underneath.
    pub closed spec fn place(self) -> P {
        self.place
    }

    /// Holds `place` as one still to be filled.
    pub fn new(place: P) -> (r: Self)
        ensures
            r.place() == place,
    {
        Uninit { place }
    }

    /// Gives the place back.
    pub fn into_mem(self) -> (r: P)
        ensures
            r == self.place(),
    {
        self.place
    }

    /// The storage, to read.
    pub fn as_ptr(&self) -> (r: &<P::Target as Shape>::Raw)
        requires
            self.place().wf(),
        ensures
            r@ == self.place().contents(),
    {
        self.place.deref_place().as_non_null()
    }

    /// The storage, to write. What is left in it is what the place then
    /// holds; the place stays the same place.
    pub fn as_mut_ptr(&mut self) -> (r: &mut <P::Target as Shape>::Raw)
        requires
            old(self).place().wf(),
        ensures
            r@ == old(self).place().contents(),
            final(self).place().contents() == final(r)@,
            final(self).place().wf(),
            final(self).place().anchor() is Some <==> old(self).place().anchor() is Some,
            old(self).place().anchor() is Some ==> final(final(self).place().anchor().unwrap())@ == final(old(self).place().anchor().unwrap())@,
    {
        self.place.deref_place_mut().into_raw()
    }

    /// Vouches for the place, which holds a value by now.
    pub fn assume_init(self) -> (r: Init<P>)
        requires
            self.place().wf(),
            P::Target::is_init(self.place().contents()),
        ensures
            r.place() == self.place(),
    {
        Init::from_place(self.place)
    }
}

impl<T, P: RawPlace<Target = T>> Uninit<P> {
    /// Writes `value` into the place, which holds it from then on.
    pub fn set(self, value: T) -> (r: Init<P>)
        requires
            self.place().wf(),
        ensures
            r.place().contents() == Some(value),
            r.place().anchor() is Some <==> self.place().anchor() is Some,
            self.place().anchor() is Some ==> final(r.place().anchor().unwrap())@ == final(self.place().anchor().unwrap())@,
    {
        let mut place = self.place;
        let mut view = place.deref_place_mut();
        view.write(value);
        proof {
            view.lemma_resolved();
        }
        Init::from_place(place)
    }
}

} // verus!
