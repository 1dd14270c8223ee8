//! The stack of gutter widths, kept in a `smallvec::SmallVec` as most
//! branch trees are shallow.
use smallvec::SmallVec;
use vstd::prelude::*;

verus! {

/// A stack of gutter widths. Verus sees only what `widths_of` names.
#[verifier::external_body]
pub struct GutterWidths {
    inner: SmallVec<[usize; 8]>,
}

/// The widths that a vector holds, first pushed first.
pub uninterp spec fn widths_of(v: GutterWidths) -> Seq<usize>;

/// Relies on smallvec::SmallVec::new: the new vector is empty.
#[verifier::external_body]
pub(crate) fn widths_new() -> (r: GutterWidths)
    ensures
        widths_of(r) == Seq::<usize>::empty(),
{
    GutterWidths { inner: SmallVec::new() }
}

/// Relies on smallvec::SmallVec::len: the number of items held.
#[verifier::external_body]
pub(crate) fn widths_len(v: &GutterWidths) -> (r: usize)
    ensures
        r as nat == widths_of(*v).len(),
{
    v.inner.len()
}

/// Relies on indexing a smallvec::SmallVec, through its slice: the item at
/// position `i`.
#[verifier::external_body]
pub(crate) fn widths_at(v: &GutterWidths, i: usize) -> (r: usize)
    requires
        i < widths_of(*v).len(),
    ensures
        r == widths_of(*v)[i as int],
{
    v.inner[i]
}

/// Relies on smallvec::SmallVec::push: the item goes on the end. Growing
/// doubles the capacity, and a capacity whose size in bytes passes
/// `isize::MAX` panics; below `usize::MAX / 32` items it cannot.
#[verifier::external_body]
pub(crate) fn widths_push(v: &mut GutterWidths, w: usize)
    requires
        widths_of(*old(v)).len() < usize::MAX / 32,
    ensures
        widths_of(*final(v)) == widths_of(*old(v)).push(w),
{
    v.inner.push(w)
}

/// Relies on smallvec::SmallVec::pop: the last item leaves and is returned,
/// `None` where the vector is empty.
#[verifier::external_body]
pub(crate) fn widths_pop(v: &mut GutterWidths) -> (r: Option<usize>)
    ensures
        widths_of(*old(v)).len() == 0 ==> r is None && widths_of(*final(v)) == widths_of(*old(v)),
        widths_of(*old(v)).len() > 0 ==> r == Some(widths_of(*old(v)).last())
            && widths_of(*final(v)) == widths_of(*old(v)).drop_last(),
{
    v.inner.pop()
}

} // verus!
