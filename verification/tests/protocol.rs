use emplace::mem::BoxMem;
use emplace::protocol::{enter, TypeMarker};
use emplace::slice::Slice;
use emplace::uninit::{Uninit, UninitMut, UninitRef};
use emplace::{stack_slot, Emplace, Init, Mem, Own, Place, RawPlace, ScopedMem, Slot};
use std::cell::Cell;

struct SetOnDrop<'r>(&'r Cell<bool>);

impl Drop for SetOnDrop<'_> {
    fn drop(&mut self) {
        self.0.set(true);
    }
}

#[test]
fn it_works() {
    let b: Box<i32> = Box::emplace().with(|out: ScopedMem<'_, i32>| {
        let filled: Init<ScopedMem<'_, i32>> = out.set(50);
        let val = *filled.get();
        let out: ScopedMem<'_, i32> = Init::drop(filled);
        out.set(val * 2)
    });

    assert_eq!(*b, 100);
}

#[test]
fn fibonacci() {
    let numbers: Box<[u64]> = BoxMem::<[u64]>::alloc_slice(64).with(|out: ScopedMem<'_, [u64]>| {
        let mut slice = Slice::new(out);

        while !slice.is_full() {
            let v = if slice.len() >= 2 {
                *slice.get(0) + *slice.get(1)
            } else {
                1
            };
            slice.emplace_at(0).set(v);
        }

        slice.assert_full()
    });

    assert_eq!(numbers.len(), 64);
    assert_eq!(numbers.first(), Some(&10610209857723));
}

#[test]
fn drop_own() {
    let dropped = Cell::new(false);

    let slot = &mut stack_slot();
    let own = Own::new_in(slot, SetOnDrop(&dropped));
    Init::drop(own);

    assert!(dropped.get());
}

#[test]
fn round_trip_of_a_single_write() {
    let b: Box<i32> = Box::emplace().with(|slot: ScopedMem<'_, i32>| slot.set(50));
    assert_eq!(*b, 50);
}

#[test]
fn set_on_a_fresh_heap_place() {
    let b: Box<String> = Box::<String>::emplace().set(String::from("built in place"));
    assert_eq!(*b, "built in place");
}

#[test]
fn set_on_a_box_of_storage() {
    let storage: Box<Option<u8>> = Box::new(None);
    let b: Box<u8> = storage.set(7);
    assert_eq!(*b, 7);
}

#[test]
fn stack_slot_holds_nothing() {
    let slot: Option<u32> = stack_slot();
    assert_eq!(slot, None);
}

#[test]
fn value_stays_in_the_storage_it_was_built_in() {
    let mut slot = stack_slot();
    let own = Own::new_in(&mut slot, 5u32);
    assert_eq!(*own.get(), 5);
    let _place = Init::forget(own);
    assert_eq!(slot, Some(5));
}

#[test]
fn take_moves_the_value_out() {
    let mut slot = stack_slot();
    let own = Own::new_in(&mut slot, String::from("a"));
    let value = Init::take(own);
    assert_eq!(value, "a");
    assert_eq!(slot, None);
}

#[test]
fn take_full_hands_the_place_back_empty() {
    let mut slot = stack_slot();
    let own = Own::new_in(&mut slot, 3u64);
    let (value, place) = Init::take_full(own);
    assert_eq!(value, 3);
    let again = place.set(value + 1);
    assert_eq!(*again.get(), 4);
    let _ = Init::forget(again);
    assert_eq!(slot, Some(4));
}

#[test]
fn drop_leaves_the_storage_empty() {
    let mut slot = Some(1u8);
    let own = Init::from_place(Mem::<u8>::from_raw(&mut slot));
    let place = Init::drop(own);
    assert_eq!(place.deref_place().as_uninit(), &None);
    let _ = place;
    assert_eq!(slot, None);
}

#[test]
fn finalize_of_a_borrowed_place_keeps_the_value() {
    let mut slot = stack_slot();
    let own = Own::new_in(&mut slot, 11i16);
    let own = Init::finalize(own);
    assert_eq!(*own.get(), 11);
}

#[test]
fn with_on_borrowed_storage_fills_it() {
    let mut slot: Option<i32> = stack_slot();
    let own = (&mut slot).with(|out: ScopedMem<'_, i32>| out.set(-4));
    assert_eq!(*own.get(), -4);
    let _ = Init::forget(own);
    assert_eq!(slot, Some(-4));
}

#[test]
fn capture_type_then_expect_init() {
    let mut slot: Option<u8> = stack_slot();
    let (mut place, marker) = TypeMarker::<u8>::capture_type(&mut slot);
    let mut view = place.deref_place_mut();
    let done = view.write(9);
    assert_eq!(*done, 9);
    let own = place.assume_init();
    assert_eq!(*own.get(), 9);
    let _ = marker;
}

#[test]
fn enter_runs_the_function_once() {
    let n = enter(|_scope| 41 + 1);
    assert_eq!(n, 42);
}

#[test]
fn uninit_set_yields_init() {
    let mut slot: Option<u32> = stack_slot();
    let uninit = Uninit::new(Mem::<u32>::from_raw(&mut slot));
    assert_eq!(uninit.as_ptr(), &None);
    let init = uninit.set(8);
    assert_eq!(*init.get(), 8);
}

#[test]
fn uninit_written_by_hand_then_vouched_for() {
    let mut slot: Option<u32> = stack_slot();
    let mut uninit = Uninit::new(Mem::<u32>::from_raw(&mut slot));
    *uninit.as_mut_ptr() = Some(21);
    let init = uninit.assume_init();
    assert_eq!(Init::take(init), 21);
}

#[test]
fn uninit_into_mem_gives_the_place_back() {
    let mut slot: Option<u32> = Some(2);
    let uninit = Uninit::new(Mem::<u32>::from_raw(&mut slot));
    let place = uninit.into_mem();
    assert_eq!(place.into_raw(), &mut Some(2));
}

#[test]
fn uninit_views_read_and_write() {
    let mut cell: Option<u16> = None;
    let mut view: UninitMut<'_, u16> = UninitMut::new(&mut cell);
    assert_eq!(view.as_ptr(), &None);
    *view.write(3) += 1;
    assert_eq!(*view.as_ref(), 4);
    assert_eq!(*view.borrow().as_ref(), 4);
    *view.as_mut() += 1;
    *view.borrow_mut().as_mut() += 1;
    assert_eq!(view.as_mut_ptr(), &mut Some(6));
    assert_eq!(view.as_non_null(), &mut Some(6));
    assert_eq!(view.read(), 6);
    assert_eq!(view.as_uninit(), &mut None);
    view.write(1);
    view.drop_in_place();
    assert_eq!(view.into_uninit(), &mut None);

    let shared: UninitRef<'_, u16> = UninitRef::new(&Some(12));
    let copy = shared;
    assert_eq!(shared.as_ptr(), &Some(12));
    assert_eq!(shared.as_non_null(), &Some(12));
    assert_eq!(*copy.as_ref(), 12);
    assert_eq!(copy.read(), 12);
    assert_eq!(*shared.into_ref(), 12);
}
