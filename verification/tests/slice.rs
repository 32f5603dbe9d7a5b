use emplace::mem::BoxMem;
use emplace::slice::{Filled, Slice};
use emplace::{Init, Mem, Place, RawPlace, ScopedMem, SliceLike, SlicePlace, Slot};
use std::cell::Cell;

struct Counted<'r>(u32, &'r Cell<usize>);

impl Drop for Counted<'_> {
    fn drop(&mut self) {
        self.1.set(self.1.get() + 1);
    }
}

fn cells<T>(n: usize) -> Vec<Option<T>> {
    let mut v = Vec::new();
    for _ in 0..n {
        v.push(None);
    }
    v
}

fn elements<P: SlicePlace + RawPlace<Target = [u32]>>(slice: &Slice<P>) -> Vec<u32> {
    let mut v = Vec::new();
    for i in 0..slice.len() {
        v.push(*slice.get(i));
    }
    v
}

#[test]
fn new_slice_is_empty() {
    let mut storage = cells::<u32>(3);
    let slice = Slice::new(Mem::<[u32]>::from_raw(&mut storage));
    assert_eq!(slice.len(), 0);
    assert_eq!(slice.capacity(), 3);
    assert!(!slice.is_full());
}

#[test]
fn slice_of_no_capacity_is_full() {
    let mut storage = cells::<u32>(0);
    let slice = Slice::new(Mem::<[u32]>::from_raw(&mut storage));
    assert!(slice.is_full());
    let done = slice.assert_full();
    assert_eq!(Init::forget(done).len(), 0);
}

#[test]
fn push_appends_in_order() {
    let mut storage = cells::<u32>(3);
    let mut slice = Slice::new(Mem::<[u32]>::from_raw(&mut storage));
    slice.push(1);
    slice.push(2);
    assert_eq!(elements(&slice), vec![1, 2]);
    assert!(!slice.is_full());
    slice.push(3);
    assert!(slice.is_full());
    assert_eq!(elements(&slice), vec![1, 2, 3]);
    let _ = slice.forget();
    assert_eq!(storage, vec![Some(1), Some(2), Some(3)]);
}

#[test]
fn emplace_at_inserts_at_each_position() {
    let mut storage = cells::<u32>(5);
    let mut slice = Slice::new(Mem::<[u32]>::from_raw(&mut storage));
    slice.push(10);
    slice.push(30);
    *slice.emplace_at(1).set(20) += 0;
    assert_eq!(elements(&slice), vec![10, 20, 30]);
    slice.emplace_at(0).set(5);
    assert_eq!(elements(&slice), vec![5, 10, 20, 30]);
    slice.emplace_at(4).set(40);
    assert_eq!(elements(&slice), vec![5, 10, 20, 30, 40]);
    assert!(slice.is_full());
}

#[test]
fn push_with_builds_the_element_where_it_stands() {
    let mut storage = cells::<u32>(3);
    let mut slice = Slice::new(Mem::<[u32]>::from_raw(&mut storage));
    slice.push(1);
    slice.push_with(|_elems: Filled<'_, u32>, out: ScopedMem<'_, u32>| {
        let first = out.set(20);
        let (value, out) = Init::take_full(first);
        out.set(value + 2)
    });
    assert_eq!(elements(&slice), vec![1, 22]);
    let _ = slice.forget();
    assert_eq!(storage, vec![Some(1), Some(22), None]);
}

#[test]
fn push_with_lends_the_elements_built_so_far() {
    let mut storage = cells::<u32>(3);
    let mut slice = Slice::new(Mem::<[u32]>::from_raw(&mut storage));
    slice.push(1);
    slice.push(2);
    slice.push_with(|mut elems: Filled<'_, u32>, out: ScopedMem<'_, u32>| {
        assert_eq!(elems.len(), 2);
        assert_eq!(*elems.get(1), 2);
        *elems.get_mut(0) += 10;
        let sum = *elems.get(0) + *elems.get(1);
        out.set(sum)
    });
    assert_eq!(slice.len(), 3);
    assert_eq!(elements(&slice), vec![11, 2, 13]);
}

#[test]
fn push_with_on_an_empty_sequence_lends_no_elements() {
    let mut storage = vec![Some(7u32), None];
    let mut slice = Slice::new(Mem::<[u32]>::from_raw(&mut storage));
    slice.push_with(|elems: Filled<'_, u32>, out: ScopedMem<'_, u32>| {
        assert_eq!(elems.len(), 0);
        assert_eq!(out.deref_place().as_uninit(), &None);
        out.set(1)
    });
    assert_eq!(elements(&slice), vec![1]);
}

#[test]
fn hole_filled_through_a_constructor() {
    let mut storage = cells::<u32>(4);
    let mut slice = Slice::new(Mem::<[u32]>::from_raw(&mut storage));
    slice.push(1);
    slice.push(3);
    let elem = slice.emplace_at(1).with(|out: ScopedMem<'_, u32>| {
        let first = out.set(1);
        let (value, out) = Init::take_full(first);
        out.set(value + 1)
    });
    assert_eq!(*elem, 2);
    assert_eq!(slice.len(), 3);
    assert_eq!(elements(&slice), vec![1, 2, 3]);
}

#[test]
fn emplace_opens_the_hole_at_the_end() {
    let mut storage = cells::<u32>(2);
    let mut slice = Slice::new(Mem::<[u32]>::from_raw(&mut storage));
    slice.push(1);
    let hole = slice.emplace();
    assert_eq!(hole.pos(), 1);
    hole.set(2);
    assert_eq!(elements(&slice), vec![1, 2]);
}

#[test]
fn hole_shows_the_elements_on_either_side() {
    let mut storage = cells::<u32>(4);
    let mut slice = Slice::new(Mem::<[u32]>::from_raw(&mut storage));
    slice.push(1);
    slice.push(2);
    slice.push(3);
    let hole = slice.emplace_at(1);
    assert_eq!(hole.pos(), 1);
    let (before, after) = hole.split_ref();
    assert_eq!(before, &[Some(1)]);
    assert_eq!(after, &[Some(2), Some(3)]);
    assert_eq!(hole.deref_place().as_uninit(), &None);
    hole.drop();
}

#[test]
fn split_prefix_lends_the_elements_while_the_gap_is_filled() {
    let mut storage = cells::<u32>(4);
    let mut slice = Slice::new(Mem::<[u32]>::from_raw(&mut storage));
    slice.push(1);
    slice.push(2);
    slice.push(4);
    let (mut before, gap) = slice.emplace_at(2).split_prefix();
    assert_eq!(before.len(), 2);
    assert_eq!(gap.pos(), 2);
    assert_eq!(gap.deref_place().as_uninit(), &None);
    *before.get_mut(0) += 10;
    let sum = *before.get(0) + *before.get(1);
    let elem = gap.set(sum);
    assert_eq!(*elem, 13);
    assert_eq!(slice.len(), 4);
    assert_eq!(elements(&slice), vec![11, 2, 13, 4]);
}

#[test]
fn split_gap_filled_by_hand_and_finalized() {
    let mut storage = cells::<u32>(3);
    let mut slice = Slice::new(Mem::<[u32]>::from_raw(&mut storage));
    slice.push(1);
    slice.push(3);
    let (before, mut gap) = slice.emplace_at(1).split_prefix();
    gap.deref_place_mut().write(*before.get(0) + 1);
    let elem = gap.assume_init();
    assert_eq!(*elem, 2);
    assert_eq!(elements(&slice), vec![1, 2, 3]);
}

#[test]
fn split_gap_filled_through_the_protocol() {
    let mut storage = cells::<u32>(3);
    let mut slice = Slice::new(Mem::<[u32]>::from_raw(&mut storage));
    slice.push(1);
    slice.push(3);
    let (_before, gap) = slice.emplace_at(1).split_prefix();
    let elem = Slot::with(gap, |out: ScopedMem<'_, u32>| out.set(2));
    assert_eq!(*elem, 2);
    assert_eq!(elements(&slice), vec![1, 2, 3]);
}

#[test]
fn split_gap_closed_empty_leaves_the_sequence_as_it_was() {
    let mut storage = cells::<u32>(4);
    let mut slice = Slice::new(Mem::<[u32]>::from_raw(&mut storage));
    slice.push(1);
    slice.push(2);
    slice.push(3);
    for pos in 0..=3 {
        let (before, mut gap) = slice.emplace_at(pos).split_prefix();
        assert_eq!(before.len(), pos);
        gap.deref_place_mut().write(99);
        gap.drop();
        assert_eq!(slice.len(), 3);
        assert_eq!(slice.as_ptr(), &[Some(1), Some(2), Some(3), None]);
    }
}

#[test]
fn split_gap_let_go_leaves_the_elements_before_it() {
    let mut storage = cells::<u32>(4);
    let mut slice = Slice::new(Mem::<[u32]>::from_raw(&mut storage));
    slice.push(1);
    slice.push(2);
    slice.push(3);
    let _ = slice.emplace_at(1).split_prefix();
    assert_eq!(slice.len(), 1);
    assert_eq!(elements(&slice), vec![1]);
}

#[test]
fn while_the_hole_is_open_the_length_is_the_position() {
    let mut storage = cells::<u32>(4);
    let mut slice = Slice::new(Mem::<[u32]>::from_raw(&mut storage));
    slice.push(1);
    slice.push(2);
    slice.push(3);
    std::mem::forget(slice.emplace_at(1));
    assert_eq!(slice.len(), 1);
    assert_eq!(elements(&slice), vec![1]);
}

#[test]
fn abandoned_insertion_leaves_the_sequence_as_it_was() {
    let mut storage = cells::<u32>(4);
    let mut slice = Slice::new(Mem::<[u32]>::from_raw(&mut storage));
    slice.push(1);
    slice.push(2);
    slice.push(3);
    for pos in 0..=3 {
        let hole = slice.emplace_at(pos);
        hole.drop();
        assert_eq!(slice.len(), 3);
        assert_eq!(elements(&slice), vec![1, 2, 3]);
    }
    let _ = slice.forget();
    assert_eq!(storage, vec![Some(1), Some(2), Some(3), None]);
}

#[test]
fn abandoned_insertion_discards_what_was_written_to_the_gap() {
    let mut storage = cells::<u32>(3);
    let mut slice = Slice::new(Mem::<[u32]>::from_raw(&mut storage));
    slice.push(1);
    slice.push(2);
    let mut hole = slice.emplace_at(0);
    hole.deref_place_mut().write(99);
    hole.drop();
    assert_eq!(elements(&slice), vec![1, 2]);
    let mut hole = slice.emplace();
    hole.deref_place_mut().write(98);
    hole.drop();
    assert_eq!(slice.as_ptr(), &[Some(1), Some(2), None]);
}

#[test]
fn hole_filled_by_hand_and_finalized() {
    let mut storage = cells::<u32>(3);
    let mut slice = Slice::new(Mem::<[u32]>::from_raw(&mut storage));
    slice.push(1);
    slice.push(3);
    let mut hole = slice.emplace_at(1);
    hole.deref_place_mut().write(2);
    let elem = hole.assume_init();
    assert_eq!(*elem, 2);
    assert_eq!(elements(&slice), vec![1, 2, 3]);
}

#[test]
fn pop_moves_the_last_element_out() {
    let mut storage = cells::<u32>(2);
    let mut slice = Slice::new(Mem::<[u32]>::from_raw(&mut storage));
    assert_eq!(slice.pop(), None);
    slice.push(1);
    slice.push(2);
    assert_eq!(slice.pop(), Some(2));
    assert_eq!(slice.as_ptr(), &[Some(1), None]);
    assert_eq!(elements(&slice), vec![1]);
    assert_eq!(slice.pop(), Some(1));
    assert_eq!(slice.pop(), None);
    assert_eq!(slice.len(), 0);
}

#[test]
fn get_mut_changes_one_element() {
    let mut storage = cells::<u32>(2);
    let mut slice = Slice::new(Mem::<[u32]>::from_raw(&mut storage));
    slice.push(1);
    slice.push(2);
    *slice.get_mut(0) = 7;
    assert_eq!(elements(&slice), vec![7, 2]);
}

#[test]
fn raw_cells_of_the_builder() {
    let mut storage = cells::<u32>(3);
    let mut slice = Slice::new(Mem::<[u32]>::from_raw(&mut storage));
    slice.push(1);
    assert_eq!(slice.as_ptr(), &[Some(1), None, None]);
    let spare = slice.as_mut_ptr();
    assert_eq!(spare.len(), 2);
    spare[0] = Some(50);
    assert_eq!(slice.len(), 1);
    assert_eq!(elements(&slice), vec![1]);
    slice.push(2);
    assert_eq!(slice.as_ptr(), &[Some(1), Some(2), None]);
}

#[test]
fn clear_destroys_the_elements_and_nothing_else() {
    let mut storage = vec![None, None, Some(9u32)];
    let mut slice = Slice::new(Mem::<[u32]>::from_raw(&mut storage));
    slice.push(1);
    slice.push(2);
    slice.clear();
    assert_eq!(slice.len(), 0);
    assert_eq!(slice.capacity(), 3);
    let _ = slice.forget();
    assert_eq!(storage, vec![None, None, Some(9)]);
}

#[test]
fn drop_hands_the_place_back_without_the_elements() {
    let mut storage = cells::<u32>(2);
    let mut slice = Slice::new(Mem::<[u32]>::from_raw(&mut storage));
    slice.push(1);
    let place = slice.drop();
    assert_eq!(place.len(), 2);
    assert_eq!(place.as_uninit_slice(), &[None, None]);
}

#[test]
fn assert_full_finalizes_a_full_sequence() {
    let mut storage = cells::<u32>(2);
    let mut slice = Slice::new(Mem::<[u32]>::from_raw(&mut storage));
    slice.push(4);
    slice.push(5);
    let done = slice.assert_full();
    assert_eq!(done.len(), 2);
    assert_eq!(*done.at(0), 4);
    assert_eq!(*done.at(1), 5);
    let _ = Init::forget(done);
    assert_eq!(storage, vec![Some(4), Some(5)]);
}

#[test]
fn a_sequence_that_is_not_full_is_not_finalized() {
    let mut storage = cells::<u32>(2);
    let mut slice = Slice::new(Mem::<[u32]>::from_raw(&mut storage));
    slice.push(4);
    let mut slice = match slice.try_assert_full() {
        Ok(_) => panic!("finalized with room left"),
        Err(rest) => rest,
    };
    assert_eq!(slice.len(), 1);
    assert_eq!(elements(&slice), vec![4]);
    slice.push(5);
    assert!(slice.try_assert_full().is_ok());
}

#[test]
fn each_element_is_destroyed_once() {
    let drops = Cell::new(0);
    let mut storage = cells::<Counted<'_>>(4);
    let mut slice = Slice::new(Mem::<[Counted<'_>]>::from_raw(&mut storage));
    slice.push(Counted(1, &drops));
    slice.push(Counted(2, &drops));
    slice.emplace_at(1).set(Counted(3, &drops));
    slice.emplace_at(0).drop();
    assert_eq!(drops.get(), 0);

    let popped = slice.pop();
    assert_eq!(popped.as_ref().map(|c| c.0), Some(2));
    assert_eq!(drops.get(), 0);
    drop(popped);
    assert_eq!(drops.get(), 1);

    slice.push(Counted(4, &drops));
    assert_eq!(slice.len(), 3);
    let place = slice.drop();
    assert_eq!(drops.get(), 4);
    drop(place);
    drop(storage);
    assert_eq!(drops.get(), 4);
}

#[test]
fn teardown_after_an_abandoned_insertion_destroys_what_is_filled() {
    let drops = Cell::new(0);
    let mut storage = cells::<Counted<'_>>(3);
    let mut slice = Slice::new(Mem::<[Counted<'_>]>::from_raw(&mut storage));
    slice.push(Counted(1, &drops));
    slice.push(Counted(2, &drops));
    slice.emplace_at(1).drop();
    assert_eq!(slice.len(), 2);
    slice.clear();
    assert_eq!(drops.get(), 2);
    drop(slice);
    drop(storage);
    assert_eq!(drops.get(), 2);
}

#[test]
fn heap_storage_for_a_slice() {
    let place = BoxMem::<[u8]>::alloc_slice(3);
    assert_eq!(place.len(), 3);
    assert_eq!(place.as_uninit_slice(), &[None, None, None]);
    let mut slice = Slice::new(place);
    slice.push(1);
    slice.push(2);
    slice.push(3);
    let boxed: Box<[u8]> = Init::finalize(slice.assert_full());
    assert_eq!(&*boxed, &[1, 2, 3]);
}

#[test]
fn heap_storage_is_refused_where_the_cells_would_not_fit() {
    assert!(BoxMem::<[u64]>::try_alloc_slice(usize::MAX / 8 + 1).is_none());
    assert!(BoxMem::<[u64]>::try_alloc_slice(usize::MAX).is_none());
    assert!(BoxMem::<[u8]>::try_alloc_slice(usize::MAX).is_none());
}

#[test]
fn heap_storage_is_had_where_the_cells_fit() {
    let place = BoxMem::<[u64]>::try_alloc_slice(5);
    assert_eq!(place.map(|p| p.len()), Some(5));
    let empty = BoxMem::<[()]>::try_alloc_slice(0);
    assert_eq!(empty.map(|p| p.len()), Some(0));
}

#[test]
fn heap_storage_of_no_cells() {
    let place = BoxMem::<[u8]>::alloc_slice(0);
    let boxed: Box<[u8]> = Init::finalize(Slice::new(place).assert_full());
    assert!(boxed.is_empty());
}

#[test]
fn slice_like_len_counts_the_cells() {
    let storage = cells::<u8>(5);
    assert_eq!(<[u8] as SliceLike>::len(&storage), 5);
}
