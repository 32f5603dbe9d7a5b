//! `Init`: a place together with the knowledge that it holds a value.
use vstd::prelude::*;
use crate::mem::base::Mem;
use crate::place::{Place, RawPlace, Shape, SlicePlace, Slot};

verus! {

/// A place that holds a value. The value belongs to whoever holds the `Init`.
pub struct Init<P: RawPlace> {
    place: P,
}

impl<P: RawPlace> Init<P> {
    #[verifier::type_invariant]
    pub(crate) closed spec fn inv(self) -> bool {
        &&& self.place.wf()
        &&& P::Target::is_init(self.place.contents())
    }

    /// The place that holds the value.
    pub closed spec fn place(self) -> P {
        self.place
    }

    /// Vouches for a place that holds a value.
    pub fn from_place(place: P) -> (r: Self)
        requires
            place.wf(),
            P::Target::is_init(place.contents()),
        ensures
            r.place() == place,
    {
        Init { place }
    }

    /// Gives up the claim on the value and hands the place back as it is.
    pub fn forget(this: Self) -> (r: P)
        ensures
            r == this.place(),
            r.wf(),
            P::Target::is_init(r.contents()),
    {
        proof {
            use_type_invariant(&this);
        }
        let Init { place } = this;
        place
    }

    /// Destroys the value in place and hands the place back, holding none.
    pub fn drop(this: Self) -> (r: P)
        ensures
            r.wf(),
            r.contents() == P::Target::vacated(this.place().contents()),
            r.anchor() is Some <==> this.place().anchor() is Some,
            r.anchor() is Some ==> final(r.anchor().unwrap())@ == final(this.place().anchor().unwrap())@,
    {
        let mut place = Self::forget(this);
        let mut view = place.deref_place_mut();
        view.drop_in_place();
        proof {
            view.lemma_resolved();
        }
        place
    }
}

impl<T, P: RawPlace<Target = T>> Init<P> {
    /// The value.
    pub fn get(&self) -> (r: &T)
        ensures
            self.place().contents() == Some(*r),
    {
        proof {
            use_type_invariant(self);
        }
        self.place.deref_place().into_ref()
    }

    /// Moves the value out. The place is let go.
    pub fn take(this: Self) -> (r: T)
        ensures
            this.place().contents() == Some(r),
    {
        Self::take_full(this).0
    }

    /// Moves the value out and hands the place back, holding none.
    pub fn take_full(this: Self) -> (r: (T, P))
        ensures
            this.place().contents() == Some(r.0),
            r.1.wf(),
            r.1.contents() is None,
            r.1.anchor() is Some <==> this.place().anchor() is Some,
            r.1.anchor() is Some ==> final(r.1.anchor().unwrap())@ == final(this.place().anchor().unwrap())@,
    {
        let mut place = Self::forget(this);
        let mut view = place.deref_place_mut();
        let value = view.read();
        proof {
            view.lemma_resolved();
        }
        (value, place)
    }
}

impl<T, P: RawPlace<Target = [T]>> Init<P> {
    /// How many elements the finished sequence has.
    pub fn len(&self) -> (n: usize)
        ensures
            n == self.place().contents().len(),
    {
        proof {
            use_type_invariant(self);
        }
        self.place.len()
    }

    /// The element at `i` of the finished sequence.
    pub fn at(&self, i: usize) -> (r: &T)
        requires
            i < self.place().contents().len(),
        ensures
            self.place().contents()[i as int] == Some(*r),
    {
        proof {
            use_type_invariant(self);
        }
        let cells = self.place.as_uninit_slice();
        cells[i].as_ref().unwrap()
    }
}

impl<'s, T> Init<Mem<'s, T>> {
    /// Puts `value` into `uninit` and vouches for it.
    pub fn new_in(uninit: &'s mut Option<T>, value: T) -> (r: Self)
        ensures
            r.place().raw_mut()@ == Some(value),
            final(r.place().raw_mut())@ == final(uninit)@,
    {
        Mem::from_raw(uninit).set(value)
    }
}

impl<P: Place> Init<P> {
    /// Finalizes the place.
    pub fn finalize(this: Self) -> (r: P::Init)
        ensures
            P::owned(&r) == this.place().contents(),
            P::owned_anchor(&r) is Some <==> this.place().anchor() is Some,
            this.place().anchor() is Some ==> final(P::owned_anchor(&r).unwrap())@ == final(this.place().anchor().unwrap())@,
    {
        Self::forget(this).assume_init()
    }
}

} // verus!
