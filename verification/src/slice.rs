//! Filling a slice-shaped place element by element.
use vstd::prelude::*;
use vstd::slice::slice_subrange;
use crate::init::Init;
use crate::mem::scoped::{Scope, ScopedMem};
use crate::place::{Place, RawPlace, Shape, SlicePlace};
use crate::uninit::{UninitMut, UninitRef};

verus! {

/// The values that a row of filled cells holds.
pub open spec fn values<T>(cells: Seq<Option<T>>) -> Seq<T> {
    Seq::new(cells.len(), |i: int| cells[i].unwrap())
}

/// Elements of a sequence under construction, lent to read and to change. Each
/// cell holds an element, and nothing done through the view takes one away.
pub struct Filled<'a, T> {
    cells: &'a mut [Option<T>],
}

impl<'a, T> Filled<'a, T> {
    /// The reference that the view writes through. Its final value is the
    /// cells as the view leaves them.
    pub closed spec fn anchor(self) -> &'a mut [Option<T>] {
        self.cells
    }

    /// Each cell holds an element.
    pub open spec fn wf(self) -> bool {
        forall|i: int| 0 <= i < self.anchor()@.len() ==> (#[trigger] self.anchor()@[i]) is Some
    }

    /// The elements, in their order.
    pub open spec fn view(self) -> Seq<T> {
        values(self.anchor()@)
    }

    /// Once nothing writes through the view any more, the cells are left as
    /// the view holds them.
    pub proof fn lemma_resolved(self)
        requires
            has_resolved(self),
        ensures
            final(self.anchor())@ == self.anchor()@,
    {
    }

    /// How many elements there are.
    pub fn len(&self) -> (n: usize)
        ensures
            n == self@.len(),
    {
        self.cells.len()
    }

    /// The element at `i`.
    pub fn get(&self, i: usize) -> (r: &T)
        requires
            self.wf(),
            i < self@.len(),
        ensures
            *r == self@[i as int],
    {
        self.cells[i].as_ref().unwrap()
    }

    /// The element at `i`, to change. The other elements stay as they are.
    pub fn get_mut(&mut self, i: usize) -> (r: &mut T)
        requires
            old(self).wf(),
            i < old(self)@.len(),
        ensures
            *r == old(self)@[i as int],
            final(self).wf(),
            final(self)@ == old(self)@.update(i as int, *final(r)),
            final(self).anchor()@.len() == old(self).anchor()@.len(),
            final(final(self).anchor())@ == final(old(self).anchor())@,
    {
        let r = self.cells[i].as_mut().unwrap();
        r
    }
}

/// A sequence under construction in a slice-shaped place: the first `len`
/// cells hold its elements, the others are not its concern.
pub struct Slice<P: SlicePlace> {
    place: P,
    len: usize,
}

impl<T, P: RawPlace<Target = [T]>> Slice<P> {
    /// The place underneath.
    pub closed spec fn place(&self) -> P {
        self.place
    }

    /// How many elements have been built so far.
    pub closed spec fn spec_len(&self) -> nat {
        self.len as nat
    }

    /// The elements built so far, in their order: what the first cells hold.
    pub open spec fn view(&self) -> Seq<T> {
        Seq::new(self.spec_len(), |i: int| self.place().contents()[i].unwrap())
    }

    /// How many elements the place has room for.
    pub open spec fn spec_capacity(&self) -> nat {
        self.place().contents().len()
    }

    /// The length bounds the cells that hold the elements: there are that many
    /// cells at least, and each of the first `len` holds a value.
    pub open spec fn wf(&self) -> bool {
        &&& self.place().wf()
        &&& self.spec_len() <= self.place().contents().len()
        &&& forall|i: int| 0 <= i < self.spec_len() ==> (#[trigger] self.place().contents()[i]) is Some
    }

    /// How a sequence reads whose cells are given in two parts, `head` and
    /// `window`, as [`SliceHole::split_prefix`] leaves them: where every cell
    /// of `head` and the cells of `window` up to the length hold values, the
    /// sequence is well formed, and it is the values of `head` followed by
    /// those of the first cells of `window`.
    pub proof fn lemma_rejoined(self, head: Seq<Option<T>>, window: Seq<Option<T>>)
        requires
            self.place().wf(),
            self.place().contents() == head + window,
            head.len() <= self.spec_len() <= head.len() + window.len(),
            forall|i: int| 0 <= i < head.len() ==> (#[trigger] head[i]) is Some,
            forall|i: int| 0 <= i < self.spec_len() - head.len() ==> (#[trigger] window[i]) is Some,
        ensures
            self.wf(),
            self.spec_capacity() == head.len() + window.len(),
            self@ == values(head) + values(window.take(self.spec_len() - head.len())),
    {
        let cells = self.place().contents();
        assert forall|i: int| 0 <= i < self.spec_len() implies (#[trigger] cells[i]) is Some by {
            if i < head.len() {
                assert(cells[i] == head[i]);
            } else {
                assert(cells[i] == window[i - head.len()]);
            }
        }
        assert(self@ =~= values(head) + values(window.take(self.spec_len() - head.len())));
    }

    /// An empty sequence in `place`.
    pub fn new(place: P) -> (r: Self)
        requires
            place.wf(),
        ensures
            r.wf(),
            r@ == Seq::<T>::empty(),
            r.spec_capacity() == place.contents().len(),
            r.place() == place,
    {
        let r = Slice { place, len: 0 };
        assert(r@ =~= Seq::<T>::empty());
        r
    }

    /// How many elements there are.
    pub fn len(&self) -> (n: usize)
        ensures
            n == self@.len(),
    {
        self.len
    }

    /// How many elements there is room for.
    pub fn capacity(&self) -> (n: usize)
        requires
            self.wf(),
        ensures
            n == self.spec_capacity(),
            self@.len() <= n,
    {
        self.place.len()
    }

    /// No room is left.
    pub fn is_full(&self) -> (b: bool)
        requires
            self.wf(),
        ensures
            b <==> self@.len() == self.spec_capacity(),
            self@.len() <= self.spec_capacity(),
    {
        self.len >= self.place.len()
    }

    /// The element at `i`.
    pub fn get(&self, i: usize) -> (r: &T)
        requires
            self.wf(),
            i < self@.len(),
        ensures
            *r == self@[i as int],
    {
        let cells = self.place.as_uninit_slice();
        cells[i].as_ref().unwrap()
    }

    /// The cells of the place, to read: the first `len` hold the elements.
    pub fn as_ptr(&self) -> (r: &[Option<T>])
        requires
            self.wf(),
        ensures
            r@ == self.place().contents(),
            r@.len() == self.spec_capacity(),
            forall|i: int| 0 <= i < self@.len() ==> #[trigger] r@[i] == Some(self@[i]),
    {
        self.place.as_uninit_slice()
    }

    /// The cells past the elements, to write. Whatever is left in them, the
    /// sequence stays what it is.
    pub fn as_mut_ptr(&mut self) -> (r: &mut [Option<T>])
        requires
            old(self).wf(),
        ensures
            r@ == old(self).place().contents().skip(old(self)@.len() as int),
            final(self).wf(),
            final(self)@ == old(self)@,
            final(self).place().contents() == old(self).place().contents().take(
                old(self)@.len() as int,
            ) + final(r)@,
            final(self).place().anchor() is Some <==> old(self).place().anchor() is Some,
            old(self).place().anchor() is Some ==> final(final(self).place().anchor().unwrap())@ == final(old(self).place().anchor().unwrap())@,
    {
        let len = self.len;
        let cells = self.place.as_uninit_slice_mut();
        let (head, spare) = cells.split_at_mut(len);
        spare
    }

    /// The element at `i`, to change.
    pub fn get_mut(&mut self, i: usize) -> (r: &mut T)
        requires
            old(self).wf(),
            i < old(self)@.len(),
        ensures
            *r == old(self)@[i as int],
            final(self).wf(),
            final(self)@ == old(self)@.update(i as int, *final(r)),
            final(self).spec_capacity() == old(self).spec_capacity(),
            final(self).place().anchor() is Some <==> old(self).place().anchor() is Some,
            old(self).place().anchor() is Some ==> final(final(self).place().anchor().unwrap())@ == final(old(self).place().anchor().unwrap())@,
    {
        let cells = self.place.as_uninit_slice_mut();
        let r = cells[i].as_mut().unwrap();
        r
    }

    /// Appends `elem`.
    pub fn push(&mut self, elem: T)
        requires
            old(self).wf(),
            old(self)@.len() < old(self).spec_capacity(),
        ensures
            final(self).wf(),
            final(self)@ == old(self)@.push(elem),
            final(self).spec_capacity() == old(self).spec_capacity(),
            final(self).place().anchor() is Some <==> old(self).place().anchor() is Some,
            old(self).place().anchor() is Some ==> final(final(self).place().anchor().unwrap())@ == final(old(self).place().anchor().unwrap())@,
    {
        let hole = self.emplace();
        assert(hole.prefix().push(elem) + hole.suffix() =~= old(self)@.push(elem));
        hole.set(elem);
    }

    /// Appends an element that `init` builds where it is to stand. `init` is
    /// lent the elements built so far, to read and to change, and the gap at
    /// the end under a fresh brand; the completion that it hands back for that
    /// very gap closes the sequence over what it built. The sequence is then
    /// the elements as `init` left them, and the new one.
    pub fn push_with<F>(&mut self, init: F) where
        F: for<'e, 's> FnOnce(Filled<'e, T>, ScopedMem<'s, T>) -> Init<ScopedMem<'s, T>>,

        requires
            old(self).wf(),
            old(self)@.len() < old(self).spec_capacity(),
            forall|elems: Filled<'_, T>, out: ScopedMem<'_, T>|
                elems.wf() && elems@ == old(self)@ && out.raw_mut()@ is None ==> call_requires(
                    init,
                    (elems, out),
                ),
            forall|elems: Filled<'_, T>, out: ScopedMem<'_, T>, res: Init<ScopedMem<'_, T>>|
                call_ensures(init, (elems, out), res) ==> final(res.place().raw_mut())@ == final(out.raw_mut())@,
            forall|elems: Filled<'_, T>, out: ScopedMem<'_, T>, res: Init<ScopedMem<'_, T>>|
                elems.wf() && call_ensures(init, (elems, out), res) ==> final(elems.anchor())@.len()
                    == elems.anchor()@.len() && forall|i: int|
                    0 <= i < elems.anchor()@.len() ==> (#[trigger] final(elems.anchor())@[i]) is Some,
        ensures
            final(self).wf(),
            exists|elems: Filled<'_, T>, out: ScopedMem<'_, T>, res: Init<ScopedMem<'_, T>>|
                elems.wf() && elems@ == old(self)@ && out.raw_mut()@ is None && call_ensures(
                    init,
                    (elems, out),
                    res,
                ) && res.place().raw_mut()@ is Some && final(self)@ == values(final(elems.anchor())@).push(
                    res.place().raw_mut()@.unwrap(),
                ),
            final(self).spec_capacity() == old(self).spec_capacity(),
            final(self).place().anchor() is Some <==> old(self).place().anchor() is Some,
            old(self).place().anchor() is Some ==> final(final(self).place().anchor().unwrap())@ == final(old(self).place().anchor().unwrap())@,
    {
        let pos = self.len;
        let cells = self.place.as_uninit_slice_mut();
        let ghost before = cells@;
        let room = cells.len();
        let next = pos + 1;
        let (head, rest) = cells.split_at_mut(pos);
        let gap = rest.first_mut().unwrap();
        *gap = None;
        let ghost lent_elems;
        let ghost lent;
        let ghost done;
        {
            let scope = Scope::forge();
            let out = scope.lend(UninitMut::new(gap));
            let elems = Filled { cells: head };
            proof {
                lent_elems = elems;
                lent = out;
                assert(elems@ =~= old(self)@);
            }
            let res = init(elems, out);
            proof {
                done = res;
                use_type_invariant(&res);
            }
            let out = Init::forget(res);
            proof {
                out.lemma_resolved();
            }
        }
        self.len = next;
        let ghost built = done.place().raw_mut()@.unwrap();
        assert(self.place.contents() =~= final(lent_elems.anchor())@ + before.skip(pos as int).update(
            0,
            Some(built),
        ));
        assert(self@ =~= values(final(lent_elems.anchor())@).push(built));
        assert(lent_elems.wf() && lent_elems@ == old(self)@ && lent.raw_mut()@ is None && call_ensures(
            init,
            (lent_elems, lent),
            done,
        ));
    }

    /// Opens a hole at the end, for the element that is to be appended.
    pub fn emplace(&mut self) -> (hole: SliceHole<'_, P>)
        requires
            old(self).wf(),
            old(self)@.len() < old(self).spec_capacity(),
        ensures
            hole.wf(),
            hole.spec_pos() == old(self)@.len(),
            hole.prefix() == old(self)@,
            hole.suffix() == Seq::<T>::empty(),
            hole.contents() is None,
            hole.builder().wf(),
            hole.builder()@ == old(self)@,
            hole.builder().spec_capacity() == old(self).spec_capacity(),
            *final(hole.builder()) == *final(self),
            hole.builder().place().anchor() is Some <==> old(self).place().anchor() is Some,
            old(self).place().anchor() is Some ==> final(hole.builder().place().anchor().unwrap())@ == final(old(self).place().anchor().unwrap())@,
    {
        let pos = self.len;
        let hole = SliceHole::open(self, pos);
        assert(old(self)@.take(pos as int) =~= old(self)@);
        assert(old(self)@.skip(pos as int) =~= Seq::<T>::empty());
        hole
    }

    /// Opens a hole at `pos`, for an element that is to stand there: the
    /// elements from `pos` on make room, and until the hole is closed the
    /// sequence is the elements before `pos`.
    pub fn emplace_at(&mut self, pos: usize) -> (hole: SliceHole<'_, P>)
        requires
            old(self).wf(),
            pos <= old(self)@.len() < old(self).spec_capacity(),
        ensures
            hole.wf(),
            hole.spec_pos() == pos,
            hole.prefix() == old(self)@.take(pos as int),
            hole.suffix() == old(self)@.skip(pos as int),
            hole.contents() is None,
            hole.builder().wf(),
            hole.builder()@ == hole.prefix(),
            hole.builder().spec_capacity() == old(self).spec_capacity(),
            *final(hole.builder()) == *final(self),
            hole.builder().place().anchor() is Some <==> old(self).place().anchor() is Some,
            old(self).place().anchor() is Some ==> final(hole.builder().place().anchor().unwrap())@ == final(old(self).place().anchor().unwrap())@,
    {
        SliceHole::open(self, pos)
    }

    /// Moves the last element out, if there is one.
    pub fn pop(&mut self) -> (r: Option<T>)
        requires
            old(self).wf(),
        ensures
            final(self).wf(),
            final(self).spec_capacity() == old(self).spec_capacity(),
            old(self)@.len() == 0 ==> r is None && final(self)@ == old(self)@ && final(self).place().contents()
                == old(self).place().contents(),
            old(self)@.len() > 0 ==> r == Some(old(self)@.last()) && final(self)@ == old(self)@.drop_last()
                && final(self).place().contents() == old(self).place().contents().update(
                old(self)@.len() - 1,
                None,
            ),
            final(self).place().anchor() is Some <==> old(self).place().anchor() is Some,
            old(self).place().anchor() is Some ==> final(final(self).place().anchor().unwrap())@ == final(old(self).place().anchor().unwrap())@,
    {
        if self.len == 0 {
            None
        } else {
            self.len -= 1;
            let cells = self.place.as_uninit_slice_mut();
            let value = cells[self.len].take();
            assert(final(self)@ =~= old(self)@.drop_last());
            value
        }
    }

    /// Destroys the elements. The cells past them are left as they are.
    pub fn clear(&mut self)
        requires
            old(self).wf(),
        ensures
            final(self).wf(),
            final(self)@ == Seq::<T>::empty(),
            final(self).spec_capacity() == old(self).spec_capacity(),
            final(self).place().contents() == Seq::new(
                old(self).spec_capacity(),
                |i: int| if i < old(self)@.len() { None } else { old(self).place().contents()[i] },
            ),
            final(self).place().anchor() is Some <==> old(self).place().anchor() is Some,
            old(self).place().anchor() is Some ==> final(final(self).place().anchor().unwrap())@ == final(old(self).place().anchor().unwrap())@,
    {
        let len = self.len;
        self.len = 0;
        let cells = self.place.as_uninit_slice_mut();
        let mut i: usize = 0;
        while i < len
            invariant
                i <= len <= cells@.len(),
                cells@.len() == old(self).place.contents().len(),
                forall|j: int| 0 <= j < i ==> (#[trigger] cells@[j]) is None,
                forall|j: int| i <= j < cells@.len() ==> cells@[j] == #[trigger] old(self).place.contents()[j],
            decreases len - i,
        {
            cells[i] = None;
            i += 1;
        }
        assert(final(self)@ =~= Seq::<T>::empty());
        assert(final(self).place.contents() =~= Seq::new(
            old(self).spec_capacity(),
            |i: int| if i < old(self)@.len() { None } else { old(self).place().contents()[i] },
        ));
    }

    /// Destroys the elements and hands the place back.
    pub fn drop(self) -> (r: P)
        requires
            self.wf(),
        ensures
            r.wf(),
            r.contents() == Seq::new(
                self.spec_capacity(),
                |i: int| if i < self@.len() { None } else { self.place().contents()[i] },
            ),
            r.anchor() is Some <==> self.place().anchor() is Some,
            r.anchor() is Some ==> final(r.anchor().unwrap())@ == final(self.place().anchor().unwrap())@,
    {
        let mut this = self;
        this.clear();
        this.forget()
    }

    /// Hands the place back as it is, the elements still in their cells.
    pub fn forget(self) -> (r: P)
        ensures
            r == self.place(),
    {
        let Slice { place, len: _ } = self;
        place
    }

    /// The finished sequence if no room is left, and the sequence itself, as
    /// it is, if there is: a sequence that is not full is never finalized.
    pub fn try_assert_full(self) -> (r: Result<Init<P>, Self>)
        requires
            self.wf(),
        ensures
            r is Ok <==> self@.len() == self.spec_capacity(),
            r matches Ok(init) ==> init.place() == self.place() && init.place().contents()
                == self@.map_values(|v: T| Some(v)),
            r matches Err(rest) ==> rest == self,
    {
        if self.is_full() {
            Ok(self.assert_full())
        } else {
            Err(self)
        }
    }

    /// The finished sequence: the place, every cell of which holds an element.
    /// The sequence must be full.
    pub fn assert_full(self) -> (r: Init<P>)
        requires
            self.wf(),
            self@.len() == self.spec_capacity(),
        ensures
            r.place() == self.place(),
            r.place().contents() == self@.map_values(|v: T| Some(v)),
    {
        assert(self.place.contents() =~= self@.map_values(|v: T| Some(v)));
        Init::from_place(self.forget())
    }
}

/// A gap opened in a sequence under construction, at some position: the
/// elements before it stay where they were, those from it on stand one cell to
/// the right, and the sequence's length is the position for as long as the hole
/// is open. The hole is a place for the one element that goes into the gap.
pub struct SliceHole<'a, P: SlicePlace> {
    slice: &'a mut Slice<P>,
    pos: usize,
    tail: usize,
}

impl<'a, T, P: RawPlace<Target = [T]>> SliceHole<'a, P> {
    /// The sequence that the hole was opened in.
    pub closed spec fn builder(self) -> &'a mut Slice<P> {
        self.slice
    }

    /// Where the gap is.
    pub closed spec fn spec_pos(&self) -> nat {
        self.pos as nat
    }

    /// The elements before the gap.
    pub closed spec fn prefix(&self) -> Seq<T> {
        Seq::new(self.pos as nat, |i: int| self.slice.place.contents()[i].unwrap())
    }

    /// The elements after the gap.
    pub closed spec fn suffix(&self) -> Seq<T> {
        Seq::new(self.tail as nat, |i: int| self.slice.place.contents()[self.pos + 1 + i].unwrap())
    }

    /// Once the hole is let go as it is, the sequence stays as the hole left
    /// it: the elements before the gap, and nothing more.
    pub proof fn lemma_resolved(self)
        requires
            has_resolved(self),
        ensures
            *final(self.builder()) == *self.builder(),
    {
    }

    /// Opens a gap at `pos`: the length becomes `pos` first, then the elements
    /// from `pos` on move one cell to the right.
    fn open(slice: &'a mut Slice<P>, pos: usize) -> (hole: Self)
        requires
            old(slice).wf(),
            pos <= old(slice)@.len() < old(slice).spec_capacity(),
        ensures
            hole.wf(),
            hole.spec_pos() == pos,
            hole.prefix() == old(slice)@.take(pos as int),
            hole.suffix() == old(slice)@.skip(pos as int),
            hole.contents() is None,
            hole.builder().wf(),
            hole.builder()@ == hole.prefix(),
            hole.builder().spec_capacity() == old(slice).spec_capacity(),
            *final(hole.builder()) == *final(slice),
            hole.builder().place().anchor() is Some <==> old(slice).place().anchor() is Some,
            old(slice).place().anchor() is Some ==> final(hole.builder().place().anchor().unwrap())@ == final(old(slice).place().anchor().unwrap())@,
    {
        let len = slice.len;
        slice.len = pos;
        let cells = slice.place.as_uninit_slice_mut();
        let ghost before = cells@;
        let mut i: usize = len;
        while i > pos
            invariant
                pos <= i <= len < cells@.len(),
                cells@.len() == before.len(),
                forall|j: int| 0 <= j < i ==> #[trigger] cells@[j] == before[j],
                forall|j: int| i < j <= len ==> #[trigger] cells@[j] == before[j - 1],
                forall|j: int| len < j < before.len() ==> #[trigger] cells@[j] == before[j],
            decreases i,
        {
            let moved = cells[i - 1].take();
            cells[i] = moved;
            i -= 1;
        }
        cells[pos] = None;
        let ghost after = cells@;
        let hole = SliceHole { slice, pos, tail: len - pos };
        assert(hole.slice.place.contents() == after);
        assert forall|j: int| 0 <= j < pos implies (#[trigger] after[j]) is Some by {
            assert(before[j] is Some);
        }
        assert forall|j: int| pos < j <= len implies (#[trigger] after[j]) is Some by {
            assert(before[j - 1] is Some);
        }
        assert(hole.prefix() =~= old(slice)@.take(pos as int));
        assert(hole.suffix() =~= old(slice)@.skip(pos as int)) by {
            assert forall|k: int| 0 <= k < len - pos implies hole.suffix()[k] == old(slice)@.skip(
                pos as int,
            )[k] by {
                assert(after[pos + 1 + k] == before[pos + k]);
            }
        }
        assert(hole.builder()@ =~= hole.prefix());
        hole
    }

    /// Where the gap is.
    pub fn pos(&self) -> (n: usize)
        ensures
            n == self.spec_pos(),
    {
        self.pos
    }

    /// The cells before the gap and the cells after it, to read. Each holds
    /// an element.
    pub fn split_ref(&self) -> (r: (&[Option<T>], &[Option<T>]))
        requires
            self.wf(),
        ensures
            r.0@ == self.prefix().map_values(|v: T| Some(v)),
            r.1@ == self.suffix().map_values(|v: T| Some(v)),
    {
        let cells = self.slice.place.as_uninit_slice();
        let n = cells.len();
        let before = slice_subrange(cells, 0, self.pos);
        let after = slice_subrange(cells, self.pos + 1, self.pos + 1 + self.tail);
        assert(before@ =~= self.prefix().map_values(|v: T| Some(v)));
        assert(after@ =~= self.suffix().map_values(|v: T| Some(v)));
        (before, after)
    }

    /// Splits the elements before the gap off the hole, to read and to change
    /// while the gap is filled. What is left is the gap with the elements
    /// after it, still a place for the element to come. The sequence ends up
    /// with the cells as the two leave them, first those of the elements, then
    /// those from the gap on, and with the length that the gap leaves.
    pub fn split_prefix(self) -> (r: (Filled<'a, T>, SliceGap<'a, T>))
        requires
            self.wf(),
        ensures
            r.0.wf(),
            r.0@ == self.prefix(),
            r.1.wf(),
            r.1.spec_pos() == self.spec_pos(),
            r.1.suffix() == self.suffix(),
            r.1.contents() == self.contents(),
            r.0.anchor()@ + r.1.window()@ == self.builder().place().contents(),
            final(self.builder()).place().contents() == final(r.0.anchor())@ + final(r.1.window())@,
            final(self.builder()).spec_len() == *final(r.1.length()),
            final(self.builder()).place().wf(),
            final(self.builder()).place().anchor() is Some <==> self.builder().place().anchor() is Some,
            self.builder().place().anchor() is Some ==> final(final(self.builder()).place().anchor().unwrap())@ == final(self.builder().place().anchor().unwrap())@,
    {
        let SliceHole { slice, pos, tail } = self;
        let length = &mut slice.len;
        let cells = slice.place.as_uninit_slice_mut();
        let ghost before = cells@;
        let room = cells.len();
        let (head, window) = cells.split_at_mut(pos);
        let elems = Filled { cells: head };
        let gap = SliceGap { len: length, window, pos, tail };
        assert(elems@ =~= self.prefix());
        assert(gap.suffix() =~= self.suffix());
        assert(elems.anchor()@ + gap.window()@ =~= before);
        (elems, gap)
    }

    /// Puts `value` into the gap and closes the hole over it: the sequence
    /// then holds the elements before the gap, the value, and the elements
    /// after the gap.
    pub fn set(self, value: T) -> (r: &'a mut T)
        requires
            self.wf(),
        ensures
            *r == value,
            final(self.builder()).wf(),
            final(self.builder())@ == self.prefix().push(*final(r)) + self.suffix(),
            final(self.builder()).spec_capacity() == self.builder().spec_capacity(),
            final(self.builder()).place().anchor() is Some <==> self.builder().place().anchor() is Some,
            self.builder().place().anchor() is Some ==> final(final(self.builder()).place().anchor().unwrap())@ == final(self.builder().place().anchor().unwrap())@,
    {
        let ghost hole = self;
        let SliceHole { slice, pos, tail } = self;
        let cells = slice.place.as_uninit_slice_mut();
        let r = cells[pos].insert(value);
        slice.len = pos + tail + 1;
        assert(final(hole.builder())@ =~= hole.prefix().push(*final(r)) + hole.suffix());
        r
    }

    /// Fills the gap through a constructor and closes the hole over what it
    /// built: the gap is lent to `init` under a fresh brand, and the completion
    /// that `init` hands back for that very view is the element. The sequence
    /// then holds the elements before the gap, the element, and the elements
    /// after the gap.
    pub fn with<F>(self, init: F) -> (r: &'a mut T) where
        F: for<'s> FnOnce(ScopedMem<'s, T>) -> Init<ScopedMem<'s, T>>,

        requires
            self.wf(),
            forall|out: ScopedMem<'_, T>| out.raw_mut()@ == self.contents() ==> call_requires(init, (out,)),
            forall|out: ScopedMem<'_, T>, res: Init<ScopedMem<'_, T>>|
                call_ensures(init, (out,), res) ==> final(res.place().raw_mut())@ == final(out.raw_mut())@,
        ensures
            exists|out: ScopedMem<'_, T>, res: Init<ScopedMem<'_, T>>|
                out.raw_mut()@ == self.contents() && call_ensures(init, (out,), res)
                    && res.place().raw_mut()@ == Some(*r),
            final(self.builder()).wf(),
            final(self.builder())@ == self.prefix().push(*final(r)) + self.suffix(),
            final(self.builder()).spec_capacity() == self.builder().spec_capacity(),
            final(self.builder()).place().anchor() is Some <==> self.builder().place().anchor() is Some,
            self.builder().place().anchor() is Some ==> final(final(self.builder()).place().anchor().unwrap())@ == final(self.builder().place().anchor().unwrap())@,
    {
        let mut hole = self;
        let ghost lent;
        let ghost done;
        {
            let scope = Scope::forge();
            let out = scope.lend(hole.deref_place_mut());
            proof {
                lent = out;
            }
            let res = init(out);
            proof {
                done = res;
                use_type_invariant(&res);
            }
            let out = Init::forget(res);
            proof {
                out.lemma_resolved();
            }
        }
        let r = hole.assume_init();
        assert(lent.raw_mut()@ == self.contents() && call_ensures(init, (lent,), done)
            && done.place().raw_mut()@ == Some(*r));
        r
    }

    /// Closes the hole with nothing in it: the elements after the gap move
    /// back, and the sequence is what it was before the hole was opened.
    pub fn drop(self)
        requires
            self.wf(),
        ensures
            final(self.builder()).wf(),
            final(self.builder())@ == self.prefix() + self.suffix(),
            final(self.builder()).spec_capacity() == self.builder().spec_capacity(),
            final(self.builder()).place().contents()[(self.spec_pos() + self.suffix().len()) as int] is None,
            forall|i: int|
                self.spec_pos() + self.suffix().len() < i < self.builder().spec_capacity()
                    ==> #[trigger] final(self.builder()).place().contents()[i]
                    == self.builder().place().contents()[i],
            final(self.builder()).place().anchor() is Some <==> self.builder().place().anchor() is Some,
            self.builder().place().anchor() is Some ==> final(final(self.builder()).place().anchor().unwrap())@ == final(self.builder().place().anchor().unwrap())@,
    {
        let SliceHole { slice, pos, tail } = self;
        let cells = slice.place.as_uninit_slice_mut();
        let ghost before = cells@;
        let n = cells.len();
        let end = pos + tail;
        let mut i: usize = pos;
        while i < end
            invariant
                pos <= i <= end < cells@.len(),
                cells@.len() == before.len(),
                forall|j: int| 0 <= j < pos ==> #[trigger] cells@[j] == before[j],
                forall|j: int| pos <= j < i ==> #[trigger] cells@[j] == before[j + 1],
                forall|j: int| i < j < before.len() ==> #[trigger] cells@[j] == before[j],
            decreases end - i,
        {
            let moved = cells[i + 1].take();
            cells[i] = moved;
            i += 1;
        }
        cells[end] = None;
        let ghost after = cells@;
        slice.len = end;
        assert(slice.place.contents() == after);
        assert forall|j: int| 0 <= j < end implies (#[trigger] after[j]) is Some by {
            if j < pos {
                assert(before[j] is Some);
            } else {
                assert(before[j + 1] is Some);
            }
        }
        assert(slice@ =~= self.prefix() + self.suffix()) by {
            assert forall|k: int| 0 <= k < end implies slice@[k] == (self.prefix() + self.suffix())[k] by {
                if k >= pos {
                    assert(after[k] == before[k + 1]);
                }
            }
        }
    }
}

impl<'a, T, P: RawPlace<Target = [T]>> RawPlace for SliceHole<'a, P> {
    type Target = T;

    closed spec fn wf(&self) -> bool {
        &&& self.slice.wf()
        &&& self.slice.len == self.pos
        &&& self.pos + self.tail < self.slice.place.contents().len()
        &&& forall|i: int|
            self.pos < i <= self.pos + self.tail ==> (#[trigger] self.slice.place.contents()[i]) is Some
    }

    closed spec fn contents(&self) -> Option<T> {
        self.slice.place.contents()[self.pos as int]
    }

    open spec fn anchor(&self) -> Option<&mut Option<T>> {
        None
    }

    fn deref_place(&self) -> (r: UninitRef<'_, T>) {
        let cells = self.slice.place.as_uninit_slice();
        UninitRef::new(&cells[self.pos])
    }

    /// The gap, to write. The hole stays open where it is, with the same
    /// elements on either side.
    fn deref_place_mut(&mut self) -> (r: UninitMut<'_, T>)
        ensures
            final(self).spec_pos() == old(self).spec_pos(),
            final(self).prefix() == old(self).prefix(),
            final(self).suffix() == old(self).suffix(),
            final(self).builder().wf(),
            final(self).builder()@ == old(self).builder()@,
            final(self).builder().spec_capacity() == old(self).builder().spec_capacity(),
            *final(final(self).builder()) == *final(old(self).builder()),
            final(self).builder().place().anchor() is Some <==> old(self).builder().place().anchor() is Some,
            old(self).builder().place().anchor() is Some ==> final(final(self).builder().place().anchor().unwrap())@ == final(old(self).builder().place().anchor().unwrap())@,
    {
        let cells = self.slice.place.as_uninit_slice_mut();
        UninitMut::new(&mut cells[self.pos])
    }
}

impl<'a, T: 'a, P: RawPlace<Target = [T]>> Place for SliceHole<'a, P> {
    type Init = &'a mut T;

    open spec fn owned(init: &&'a mut T) -> Option<T> {
        Some(**init)
    }

    open spec fn owned_anchor(init: &&'a mut T) -> Option<&'a mut Option<T>> {
        None
    }

    /// Closes the hole over the element that the gap holds by now.
    fn assume_init(self) -> (r: &'a mut T)
        ensures
            final(self.builder()).wf(),
            final(self.builder())@ == self.prefix().push(*final(r)) + self.suffix(),
            final(self.builder()).spec_capacity() == self.builder().spec_capacity(),
            final(self.builder()).place().anchor() is Some <==> self.builder().place().anchor() is Some,
            self.builder().place().anchor() is Some ==> final(final(self.builder()).place().anchor().unwrap())@ == final(self.builder().place().anchor().unwrap())@,
    {
        let ghost hole = self;
        let SliceHole { slice, pos, tail } = self;
        let cells = slice.place.as_uninit_slice_mut();
        let r = cells[pos].as_mut().unwrap();
        slice.len = pos + tail + 1;
        assert(final(hole.builder())@ =~= hole.prefix().push(*final(r)) + hole.suffix());
        r
    }
}

/// What is left of a hole once the elements before the gap are split off:
/// the cells from the gap on, and the length of the sequence, which is the
/// gap's position for as long as the gap is open. It is a place for the
/// element that goes into the gap.
pub struct SliceGap<'a, T> {
    len: &'a mut usize,
    window: &'a mut [Option<T>],
    pos: usize,
    tail: usize,
}

impl<'a, T> SliceGap<'a, T> {
    /// The reference to the sequence's length.
    pub closed spec fn length(self) -> &'a mut usize {
        self.len
    }

    /// The reference to the cells from the gap on: the gap first, then the
    /// elements after it, then the cells past the elements.
    pub closed spec fn window(self) -> &'a mut [Option<T>] {
        self.window
    }

    /// Where the gap is in the sequence.
    pub closed spec fn spec_pos(&self) -> nat {
        self.pos as nat
    }

    /// How many elements stand after the gap.
    pub closed spec fn spec_tail(&self) -> nat {
        self.tail as nat
    }

    /// The elements after the gap: what the cells after the first hold.
    pub open spec fn suffix(&self) -> Seq<T> {
        Seq::new(self.spec_tail(), |i: int| self.window()@[1 + i].unwrap())
    }

    /// Once the gap is let go as it is, the length and the cells stay as it
    /// left them.
    pub proof fn lemma_resolved(self)
        requires
            has_resolved(self),
        ensures
            *final(self.length()) == *self.length(),
            final(self.window())@ == self.window()@,
    {
    }

    /// Where the gap is in the sequence.
    pub fn pos(&self) -> (n: usize)
        ensures
            n == self.spec_pos(),
    {
        self.pos
    }

    /// Puts `value` into the gap and closes over it: the length becomes that
    /// of the elements before the gap, the value, and the elements after it.
    pub fn set(self, value: T) -> (r: &'a mut T)
        requires
            self.wf(),
        ensures
            *r == value,
            *final(self.length()) == self.spec_pos() + 1 + self.suffix().len(),
            final(self.window())@ == self.window()@.update(0, Some(*final(r))),
    {
        let SliceGap { len, window, pos, tail } = self;
        let r = window[0].insert(value);
        *len = pos + tail + 1;
        r
    }

    /// Closes the gap with nothing in it: the elements after it move back,
    /// the cell after them holds none, and the length is that of the elements
    /// before the gap and after it.
    pub fn drop(self)
        requires
            self.wf(),
        ensures
            *final(self.length()) == self.spec_pos() + self.suffix().len(),
            final(self.window())@.len() == self.window()@.len(),
            forall|i: int|
                0 <= i < self.suffix().len() ==> #[trigger] final(self.window())@[i] == Some(self.suffix()[i]),
            final(self.window())@[self.suffix().len() as int] is None,
            forall|i: int|
                self.suffix().len() < i < self.window()@.len() ==> #[trigger] final(self.window())@[i]
                    == self.window()@[i],
    {
        let SliceGap { len, window, pos, tail } = self;
        let ghost before = window@;
        let room = window.len();
        let mut i: usize = 0;
        while i < tail
            invariant
                i <= tail < window@.len(),
                window@.len() == before.len(),
                forall|j: int| 0 <= j < i ==> #[trigger] window@[j] == before[j + 1],
                forall|j: int| i < j < before.len() ==> #[trigger] window@[j] == before[j],
            decreases tail - i,
        {
            let moved = window[i + 1].take();
            window[i] = moved;
            i += 1;
        }
        window[tail] = None;
        *len = pos + tail;
        assert forall|k: int| 0 <= k < tail implies #[trigger] window@[k] == Some(self.suffix()[k]) by {
            assert(window@[k] == before[k + 1]);
            assert(before[k + 1] is Some);
        }
    }
}

impl<'a, T> RawPlace for SliceGap<'a, T> {
    type Target = T;

    open spec fn wf(&self) -> bool {
        &&& *self.length() == self.spec_pos()
        &&& self.spec_tail() < self.window()@.len()
        &&& self.spec_pos() + self.spec_tail() < usize::MAX
        &&& forall|i: int| 0 < i <= self.spec_tail() ==> (#[trigger] self.window()@[i]) is Some
    }

    open spec fn contents(&self) -> Option<T> {
        self.window()@[0]
    }

    open spec fn anchor(&self) -> Option<&mut Option<T>> {
        None
    }

    fn deref_place(&self) -> (r: UninitRef<'_, T>) {
        UninitRef::new(&self.window[0])
    }

    /// The gap, to write. The gap stays open where it is, with the same
    /// elements after it and the same length.
    fn deref_place_mut(&mut self) -> (r: UninitMut<'_, T>)
        ensures
            final(self).spec_pos() == old(self).spec_pos(),
            final(self).suffix() == old(self).suffix(),
            *final(self).length() == *old(self).length(),
            *final(final(self).length()) == *final(old(self).length()),
            final(self).window()@ == old(self).window()@.update(0, final(self).contents()),
            final(final(self).window())@ == final(old(self).window())@,
    {
        UninitMut::new(&mut self.window[0])
    }
}

impl<'a, T: 'a> Place for SliceGap<'a, T> {
    type Init = &'a mut T;

    open spec fn owned(init: &&'a mut T) -> Option<T> {
        Some(**init)
    }

    open spec fn owned_anchor(init: &&'a mut T) -> Option<&'a mut Option<T>> {
        None
    }

    /// Closes over the element that the gap holds by now.
    fn assume_init(self) -> (r: &'a mut T)
        ensures
            *final(self.length()) == self.spec_pos() + 1 + self.suffix().len(),
            final(self.window())@ == self.window()@.update(0, Some(*final(r))),
    {
        let SliceGap { len, window, pos, tail } = self;
        let r = window[0].as_mut().unwrap();
        *len = pos + tail + 1;
        r
    }
}

} // verus!
