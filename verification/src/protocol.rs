//! The steps of the construction protocol, one by one: what
//! [`Slot::with`](crate::place::Slot::with) does in a single call.
use core::marker::PhantomData;
use vstd::prelude::*;
use crate::init::Init;
use crate::mem::scoped::{Scope, ScopedMem};
use crate::place::{Place, RawPlace, Shape, Slot};

verus! {

/// Runs `f` under a scope of its own, whose brand no other scope shares.
pub fn enter<F, R>(f: F) -> (r: R) where F: for<'s> FnOnce(Scope<'s>) -> R
    requires
        forall|scope: Scope<'_>| call_requires(f, (scope,)),
    ensures
        exists|scope: Scope<'_>| call_ensures(f, (scope,), r),
{
    f(Scope::forge())
}

/// Holds a scope for as long as its brand is in use, so that the brand cannot
/// be taken for a longer one.
pub struct ScopeGuard<'s> {
    scope: Scope<'s>,
}

impl<'s> ScopeGuard<'s> {
    /// A guard for `scope`: the borrow pins the brand to where the scope
    /// stands.
    pub fn new(scope: &'s Scope<'s>) -> Self {
        let _ = scope;
        ScopeGuard { scope: Scope::forge() }
    }
}

/// Remembers what a slot is for, so that the completion handed back can be
/// held to it.
pub struct TypeMarker<T: ?Sized> {
    target: PhantomData<T>,
}

impl<T: ?Sized + Shape> TypeMarker<T> {
    /// Turns `slot` into its place and notes what the place is for.
    pub fn capture_type<V, S: Slot<V>>(slot: S) -> (r: (S::Place, Self)) where
        S::Place: RawPlace<Target = T>,

        requires
            slot.slot_wf(),
        ensures
            r.0.wf(),
            r.0.contents() == slot.slot_contents(),
            r.0.anchor() is Some <==> slot.slot_anchor() is Some,
            r.0.anchor() is Some ==> final(r.0.anchor().unwrap())@ == final(slot.slot_anchor().unwrap())@,
    {
        (slot.into_place(), TypeMarker { target: PhantomData })
    }

    /// Takes the completion that a constructor hands back under `scope`'s
    /// brand. The value stays where it was built: from here on the storage
    /// behind the lent view holds it, and nothing writes through the view
    /// again.
    pub fn expect_init<'s>(&self, scope: &'s Scope<'s>, init: Init<ScopedMem<'s, T>>)
        ensures
            T::is_init(init.place().raw_mut()@),
            final(init.place().raw_mut())@ == init.place().raw_mut()@,
    {
        let _ = scope;
        let out = Init::forget(init);
        proof {
            out.lemma_resolved();
        }
    }
}

} // verus!
