//! What holds of a sequence under construction over any run of operations.
//!
//! The operations of [`Slice`](crate::slice::Slice) are taken here by what
//! their contracts say of the sequence's view: `after` is that, step by step.
use vstd::prelude::*;
use crate::init::Init;
use crate::place::RawPlace;
use crate::slice::{Slice, SliceHole};

verus! {

/// One operation on a sequence under construction.
pub enum Step<T> {
    /// An element is appended.
    Push(T),
    /// A hole is opened at a position and closed over an element.
    Insert(nat, T),
    /// A hole is opened at a position and closed with nothing in it.
    Abandon(nat),
    /// The last element, if there is one, is moved out.
    Pop,
    /// The elements are destroyed.
    Clear,
}

/// The step may be taken on a sequence `s` in a place of `cap` cells.
pub open spec fn allowed<T>(s: Seq<T>, cap: nat, step: Step<T>) -> bool {
    match step {
        Step::Push(_) => s.len() < cap,
        Step::Insert(pos, _) => pos <= s.len() < cap,
        Step::Abandon(pos) => pos <= s.len() < cap,
        Step::Pop => true,
        Step::Clear => true,
    }
}

/// The sequence after the step.
pub open spec fn after<T>(s: Seq<T>, step: Step<T>) -> Seq<T> {
    match step {
        Step::Push(v) => s.push(v),
        Step::Insert(pos, v) => s.take(pos as int).push(v) + s.skip(pos as int),
        Step::Abandon(pos) => s.take(pos as int) + s.skip(pos as int),
        Step::Pop => if s.len() == 0 {
            s
        } else {
            s.drop_last()
        },
        Step::Clear => Seq::empty(),
    }
}

/// How many elements the step takes in.
pub open spec fn taken_in<T>(step: Step<T>) -> nat {
    match step {
        Step::Push(_) => 1,
        Step::Insert(_, _) => 1,
        _ => 0,
    }
}

/// How many elements the step hands to the caller.
pub open spec fn moved_out<T>(s: Seq<T>, step: Step<T>) -> nat {
    match step {
        Step::Pop => if s.len() == 0 {
            0
        } else {
            1
        },
        _ => 0,
    }
}

/// How many elements the step destroys.
pub open spec fn destroyed<T>(s: Seq<T>, step: Step<T>) -> nat {
    match step {
        Step::Clear => s.len(),
        _ => 0,
    }
}

/// The sequence after a run of steps on an empty one.
pub open spec fn run<T>(steps: Seq<Step<T>>) -> Seq<T>
    decreases steps.len(),
{
    if steps.len() == 0 {
        Seq::empty()
    } else {
        after(run(steps.drop_last()), steps.last())
    }
}

/// Every step of the run may be taken where it stands.
pub open spec fn valid<T>(steps: Seq<Step<T>>, cap: nat) -> bool
    decreases steps.len(),
{
    steps.len() > 0 ==> valid(steps.drop_last(), cap) && allowed(
        run(steps.drop_last()),
        cap,
        steps.last(),
    )
}

/// How many elements the run has taken in.
pub open spec fn total_in<T>(steps: Seq<Step<T>>) -> nat
    decreases steps.len(),
{
    if steps.len() == 0 {
        0
    } else {
        total_in(steps.drop_last()) + taken_in(steps.last())
    }
}

/// How many elements the run has handed to the caller.
pub open spec fn total_out<T>(steps: Seq<Step<T>>) -> nat
    decreases steps.len(),
{
    if steps.len() == 0 {
        0
    } else {
        total_out(steps.drop_last()) + moved_out(run(steps.drop_last()), steps.last())
    }
}

/// How many elements the run has destroyed.
pub open spec fn total_destroyed<T>(steps: Seq<Step<T>>) -> nat
    decreases steps.len(),
{
    if steps.len() == 0 {
        0
    } else {
        total_destroyed(steps.drop_last()) + destroyed(run(steps.drop_last()), steps.last())
    }
}

/// No element is destroyed twice, and none is lost: after any run of steps,
/// the elements taken in are those handed out, those destroyed, and those
/// that the sequence still holds. Tearing the sequence down at that point
/// destroys exactly the elements it holds, so that every element taken in has
/// then left once. The sequence never holds more than the place has room for.
pub proof fn law_each_element_leaves_once<T>(steps: Seq<Step<T>>, cap: nat)
    requires
        valid(steps, cap),
    ensures
        total_in(steps) == total_out(steps) + total_destroyed(steps) + run(steps).len(),
        run(steps).len() <= cap,
    decreases steps.len(),
{
    if steps.len() > 0 {
        let before = steps.drop_last();
        law_each_element_leaves_once(before, cap);
        let s = run(before);
        match steps.last() {
            Step::Insert(pos, v) => {
                assert(s.take(pos as int).len() + s.skip(pos as int).len() == s.len());
            },
            Step::Abandon(pos) => {
                assert(s.take(pos as int).len() + s.skip(pos as int).len() == s.len());
            },
            _ => {},
        }
    }
}

/// An insertion that is given up leaves no trace: with the elements before
/// the gap and those after it as [`Slice::emplace_at`](crate::slice::Slice::emplace_at)
/// hands them to the hole, what [`SliceHole::drop`] leaves is the sequence as
/// it was, the same elements in the same order.
pub proof fn law_abandoned_insertion_leaves_no_trace<'a, T, P: RawPlace<Target = [T]>>(
    before: Seq<T>,
    hole: SliceHole<'a, P>,
)
    requires
        hole.spec_pos() <= before.len(),
        hole.prefix() == before.take(hole.spec_pos() as int),
        hole.suffix() == before.skip(hole.spec_pos() as int),
    ensures
        hole.prefix() + hole.suffix() == before,
        after(before, Step::Abandon(hole.spec_pos())) == before,
{
    assert(before.take(hole.spec_pos() as int) + before.skip(hole.spec_pos() as int) =~= before);
}

/// An insertion that is completed is an insertion: what [`SliceHole::set`]
/// leaves is the sequence as it was with the value at the hole's position.
pub proof fn law_completed_insertion_inserts<'a, T, P: RawPlace<Target = [T]>>(
    before: Seq<T>,
    hole: SliceHole<'a, P>,
    value: T,
)
    requires
        hole.spec_pos() <= before.len(),
        hole.prefix() == before.take(hole.spec_pos() as int),
        hole.suffix() == before.skip(hole.spec_pos() as int),
    ensures
        hole.prefix().push(value) + hole.suffix() == before.insert(hole.spec_pos() as int, value),
        after(before, Step::Insert(hole.spec_pos(), value)) == before.insert(
            hole.spec_pos() as int,
            value,
        ),
{
    let pos = hole.spec_pos() as int;
    assert(before.take(pos).push(value) + before.skip(pos) =~= before.insert(pos, value));
}

/// Finalizing requires fullness: of a sequence with room left,
/// [`Slice::assert_full`] hands back no finished sequence, whatever it is, and
/// [`Slice::try_assert_full`] hands back the sequence itself and nothing else.
pub proof fn law_finalize_requires_fullness<T, P: RawPlace<Target = [T]>>(
    s: Slice<P>,
    finished: Init<P>,
    tried: Result<Init<P>, Slice<P>>,
)
    requires
        s@.len() < s.spec_capacity(),
    ensures
        !call_ensures(Slice::<P>::assert_full, (s,), finished),
        call_ensures(Slice::<P>::try_assert_full, (s,), tried) ==> tried == Err::<Init<P>, Slice<P>>(s),
{
    if call_ensures(Slice::<P>::assert_full, (s,), finished) {
        assert(finished.place().contents().len() == s@.len());
    }
}

} // verus!
