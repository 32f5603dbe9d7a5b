//! Shapes of storage, and the traits of places.
use vstd::prelude::*;
use crate::init::Init;
use crate::mem::scoped::{Scope, ScopedMem};
use crate::uninit::{UninitMut, UninitRef};

verus! {

/// The shape of what a place is for: a single value, or a slice of values.
///
/// A place for a `T` refers to one cell, `Option<T>`; a place for a `[T]`
/// refers to a slice of cells, `[Option<T>]`. The view of the storage is what
/// the contracts speak of: an `Option<T>`, or a `Seq<Option<T>>`.
pub trait Shape {
    /// The storage that a place of this shape refers to.
    type Raw: ?Sized + View;

    /// Every cell of the storage holds a value.
    spec fn is_init(raw: <Self::Raw as View>::V) -> bool;

    /// The same storage with no value in any cell.
    spec fn vacated(raw: <Self::Raw as View>::V) -> <Self::Raw as View>::V;

    /// Destroys every value held in the storage.
    fn drop_in_place(raw: &mut Self::Raw)
        ensures
            final(raw)@ == Self::vacated(old(raw)@),
    ;
}

impl<T> Shape for T {
    type Raw = Option<T>;

    open spec fn is_init(raw: Option<T>) -> bool {
        raw is Some
    }

    open spec fn vacated(raw: Option<T>) -> Option<T> {
        None
    }

    fn drop_in_place(raw: &mut Option<T>) {
        *raw = None;
    }
}

impl<T> Shape for [T] {
    type Raw = [Option<T>];

    open spec fn is_init(raw: Seq<Option<T>>) -> bool {
        forall|i: int| 0 <= i < raw.len() ==> (#[trigger] raw[i]) is Some
    }

    open spec fn vacated(raw: Seq<Option<T>>) -> Seq<Option<T>> {
        Seq::new(raw.len(), |i: int| None)
    }

    fn drop_in_place(raw: &mut [Option<T>]) {
        let n = raw.len();
        let mut i: usize = 0;
        while i < n
            invariant
                n == raw@.len(),
                n == old(raw)@.len(),
                i <= n,
                forall|j: int| 0 <= j < i ==> (#[trigger] raw@[j]) is None,
            decreases n - i,
        {
            raw[i] = None;
            i += 1;
        }
        assert(raw@ =~= Self::vacated(old(raw)@));
    }
}

/// A handle to storage of a known shape, with read and write access to it.
/// The handle does not say whether the storage holds a value:
/// [`Init`](crate::init::Init) does.
///
/// A place that borrows its storage has an anchor, the reference that it
/// writes through: the final value of the anchor is what the owner of the
/// storage finds there afterwards. A place that owns its storage has none.
pub trait RawPlace: Sized {
    /// What the place is for.
    type Target: ?Sized + Shape;

    /// The place's own invariant.
    spec fn wf(&self) -> bool;

    /// What the storage holds now.
    spec fn contents(&self) -> <<Self::Target as Shape>::Raw as View>::V;

    /// The reference that the place writes through, if it borrows its storage.
    spec fn anchor(&self) -> Option<&mut <Self::Target as Shape>::Raw>;

    /// A shared view of the storage.
    fn deref_place(&self) -> (r: UninitRef<'_, Self::Target>)
        requires
            self.wf(),
        ensures
            r@ == self.contents(),
    ;

    /// An exclusive view of the storage. What the view leaves there is what
    /// the place then holds; the place stays the same place.
    fn deref_place_mut(&mut self) -> (r: UninitMut<'_, Self::Target>)
        requires
            old(self).wf(),
        ensures
            r@ == old(self).contents(),
            final(self).contents() == final(r.anchor())@,
            final(self).wf(),
            final(self).anchor() is Some <==> old(self).anchor() is Some,
            old(self).anchor() is Some ==> final(final(self).anchor().unwrap())@ == final(old(self).anchor().unwrap())@,
    ;
}

/// A place that can be finalized once it holds a value.
pub trait Place: RawPlace {
    /// What the place becomes once it holds a value and is finalized.
    type Init;

    /// What a finalized handle holds, seen as storage.
    spec fn owned(init: &Self::Init) -> <<Self::Target as Shape>::Raw as View>::V;

    /// The reference that a finalized handle still writes through, if any.
    spec fn owned_anchor(init: &Self::Init) -> Option<&mut <Self::Target as Shape>::Raw>;

    /// Finalizes a place that holds a value: the handle that comes out holds
    /// what the place held, and writes through the same anchor.
    fn assume_init(self) -> (r: Self::Init)
        requires
            self.wf(),
            Self::Target::is_init(self.contents()),
        ensures
            Self::owned(&r) == self.contents(),
            Self::owned_anchor(&r) is Some <==> self.anchor() is Some,
            self.anchor() is Some ==> final(Self::owned_anchor(&r).unwrap())@ == final(self.anchor().unwrap())@,
    ;
}

/// A shape that is a row of elements.
pub trait SliceLike: Shape {
    /// What each element is.
    type Elem;

    /// How many cells the storage has.
    spec fn spec_len(raw: &Self::Raw) -> nat;

    /// How many cells the storage has.
    fn len(raw: &Self::Raw) -> (n: usize)
        ensures
            n == Self::spec_len(raw),
    ;
}

impl<T> SliceLike for [T] {
    type Elem = T;

    open spec fn spec_len(raw: &[Option<T>]) -> nat {
        raw@.len()
    }

    fn len(raw: &[Option<T>]) -> (n: usize) {
        raw.len()
    }
}

/// A place for a slice: storage of `len` cells in a row.
pub trait SlicePlace: RawPlace {
    /// What each cell is for.
    type Elem;

    /// The cells, as they are now.
    spec fn cells(&self) -> Seq<Option<Self::Elem>>;

    /// How many cells the place has.
    fn len(&self) -> (n: usize)
        requires
            self.wf(),
        ensures
            n == self.cells().len(),
    ;

    /// The cells, to read.
    fn as_uninit_slice(&self) -> (r: &[Option<Self::Elem>])
        requires
            self.wf(),
        ensures
            r@ == self.cells(),
    ;

    /// The cells, to write. What is left in them is what the place then
    /// holds; the place stays the same place.
    fn as_uninit_slice_mut(&mut self) -> (r: &mut [Option<Self::Elem>])
        requires
            old(self).wf(),
        ensures
            r@ == old(self).cells(),
            final(self).cells() == final(r)@,
            final(self).wf(),
            final(self).anchor() is Some <==> old(self).anchor() is Some,
            old(self).anchor() is Some ==> final(final(self).anchor().unwrap())@ == final(old(self).anchor().unwrap())@,
    ;
}

impl<T, P: RawPlace<Target = [T]>> SlicePlace for P {
    type Elem = T;

    open spec fn cells(&self) -> Seq<Option<T>> {
        self.contents()
    }

    fn len(&self) -> (n: usize) {
        self.deref_place().as_ptr().len()
    }

    fn as_uninit_slice(&self) -> (r: &[Option<T>]) {
        self.deref_place().as_non_null()
    }

    fn as_uninit_slice_mut(&mut self) -> (r: &mut [Option<T>]) {
        self.deref_place_mut().into_raw()
    }
}

/// An owned handle that can be built in place: `emplace` makes the fresh
/// place that is finalized into it.
pub trait Emplace: Sized {
    /// The place that is finalized into `Self`.
    type Place: Place<Init = Self>;

    /// A fresh place, holding no value and borrowing nothing.
    fn emplace() -> (r: Self::Place)
        ensures
            r.wf(),
            r.contents() == <Self::Place as RawPlace>::Target::vacated(r.contents()),
            r.anchor() is None,
    ;
}

/// Something that a value can be built in: a place, or what turns into one.
/// `V` is what comes out once the value is there.
pub trait Slot<V>: Sized {
    /// The place that the slot turns into.
    type Place: Place<Init = V>;

    /// The invariant of the place that the slot turns into.
    spec fn slot_wf(&self) -> bool;

    /// What the slot's storage holds now.
    spec fn slot_contents(&self) -> <<<Self::Place as RawPlace>::Target as Shape>::Raw as View>::V;

    /// The reference that the slot writes through, if it borrows its storage.
    spec fn slot_anchor(&self) -> Option<&mut <<Self::Place as RawPlace>::Target as Shape>::Raw>;

    /// The slot as a place.
    fn into_place(self) -> (p: Self::Place)
        requires
            self.slot_wf(),
        ensures
            p.wf(),
            p.contents() == self.slot_contents(),
            p.anchor() is Some <==> self.slot_anchor() is Some,
            p.anchor() is Some ==> final(p.anchor().unwrap())@ == final(self.slot_anchor().unwrap())@,
    ;

    /// Writes `value` into the slot and finalizes it.
    fn set<T>(self, value: T) -> (r: V) where Self::Place: RawPlace<Target = T>
        requires
            self.slot_wf(),
        ensures
            Self::Place::owned(&r) == Some(value),
            Self::Place::owned_anchor(&r) is Some <==> self.slot_anchor() is Some,
            self.slot_anchor() is Some ==> final(Self::Place::owned_anchor(&r).unwrap())@ == final(self.slot_anchor().unwrap())@,
    {
        let mut place = self.into_place();
        let mut view = place.deref_place_mut();
        view.write(value);
        proof {
            view.lemma_resolved();
        }
        place.assume_init()
    }

    /// Runs the construction protocol: lends the slot to `init` under a fresh
    /// brand, takes the completion that `init` hands back for that very view,
    /// and finalizes the slot, which by then holds what `init` built.
    fn with<F>(self, init: F) -> (r: V) where
        F: for<'s> FnOnce(ScopedMem<'s, <Self::Place as RawPlace>::Target>) -> Init<
            ScopedMem<'s, <Self::Place as RawPlace>::Target>,
        >,

        requires
            self.slot_wf(),
            forall|out: ScopedMem<'_, <Self::Place as RawPlace>::Target>|
                out.raw_mut()@ == self.slot_contents() ==> call_requires(init, (out,)),
            forall|
                out: ScopedMem<'_, <Self::Place as RawPlace>::Target>,
                res: Init<ScopedMem<'_, <Self::Place as RawPlace>::Target>>,
            |
                call_ensures(init, (out,), res) ==> final(res.place().raw_mut())@ == final(out.raw_mut())@,
        ensures
            exists|
                out: ScopedMem<'_, <Self::Place as RawPlace>::Target>,
                res: Init<ScopedMem<'_, <Self::Place as RawPlace>::Target>>,
            |
                out.raw_mut()@ == self.slot_contents() && call_ensures(init, (out,), res)
                    && Self::Place::owned(&r) == res.place().raw_mut()@,
            Self::Place::owned_anchor(&r) is Some <==> self.slot_anchor() is Some,
            self.slot_anchor() is Some ==> final(Self::Place::owned_anchor(&r).unwrap())@ == final(self.slot_anchor().unwrap())@,
    {
        let mut place = self.into_place();
        {
            let scope = Scope::forge();
            let out = scope.borrow(&mut place);
            let ghost lent = out;
            let res = init(out);
            let ghost done = res;
            let out = Init::forget(res);
            proof {
                out.lemma_resolved();
                assert(lent.raw_mut()@ == self.slot_contents() && call_ensures(init, (lent,), done));
            }
        }
        place.assume_init()
    }
}

impl<P: Place> Slot<P::Init> for P {
    type Place = P;

    open spec fn slot_wf(&self) -> bool {
        self.wf()
    }

    open spec fn slot_contents(&self) -> <<P::Target as Shape>::Raw as View>::V {
        self.contents()
    }

    open spec fn slot_anchor(&self) -> Option<&mut <P::Target as Shape>::Raw> {
        self.anchor()
    }

    /// A place is its own slot: it comes back as it is.
    fn into_place(self) -> (p: P)
        ensures
            p == self,
    {
        assert(self.slot_contents() == self.contents());
        self
    }
}

} // verus!
