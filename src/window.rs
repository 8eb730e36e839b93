use vstd::prelude::*;
use slice_deque::SliceDeque;
use crate::token::Tok;

verus! {

#[verifier::external_type_specification]
#[verifier::external_body]
#[verifier::reject_recursive_types(T)]
pub struct ExSliceDeque<T>(SliceDeque<T>);

/// The tokens held by a deque, front first.
pub uninterp spec fn deque_items(d: SliceDeque<Tok>) -> Seq<Tok>;

/// Relies on `SliceDeque::new`: a new deque is empty.
#[verifier::external_body]
pub(crate) fn deque_new() -> (r: SliceDeque<Tok>)
    ensures
        deque_items(r) == Seq::<Tok>::empty(),
{
    SliceDeque::new()
}

/// Relies on `SliceDeque::len`: the number of elements held.
#[verifier::external_body]
pub(crate) fn deque_len(d: &SliceDeque<Tok>) -> (r: usize)
    ensures
        r == deque_items(*d).len(),
{
    d.len()
}

/// Relies on `SliceDeque::push_back`: appends at the back.
#[verifier::external_body]
pub(crate) fn deque_push_back(d: &mut SliceDeque<Tok>, t: Tok)
    ensures
        deque_items(*final(d)) == deque_items(*old(d)).push(t),
{
    d.push_back(t)
}

/// Relies on `SliceDeque::pop_front`: removes and returns the front element.
#[verifier::external_body]
pub(crate) fn deque_pop_front(d: &mut SliceDeque<Tok>) -> (r: Option<Tok>)
    ensures
        deque_items(*old(d)).len() == 0 ==> r is None && deque_items(*final(d)) == deque_items(*old(d)),
        deque_items(*old(d)).len() > 0 ==> r == Some(deque_items(*old(d))[0])
            && deque_items(*final(d)) == deque_items(*old(d)).drop_first(),
{
    d.pop_front()
}

/// Relies on indexing a `SliceDeque` through its slice: element `i` from the front.
#[verifier::external_body]
pub(crate) fn deque_get(d: &SliceDeque<Tok>, i: usize) -> (r: &Tok)
    requires
        i < deque_items(*d).len(),
    ensures
        *r == deque_items(*d)[i as int],
{
    &d[i]
}

} // verus!
