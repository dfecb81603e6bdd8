use vstd::prelude::*;

use crate::bm::bm_search::move_gen::{swap_removed, ScoredMove};

verus! {

/// The move lists of the pickers: `arrayvec::ArrayVec`, a vector of fixed capacity.
#[verifier::external_type_specification]
#[verifier::external_body]
#[verifier::reject_recursive_types(T)]
pub struct ExArrayVec<T, const CAP: usize>(arrayvec::ArrayVec<T, CAP>);

/// The capacity of a picker's list: the most legal moves a chess position has.
pub const MAX_MOVES: usize = 218;

/// Names the entries of a list, in order.
pub uninterp spec fn scored_items(v: arrayvec::ArrayVec<ScoredMove, 218>) -> Seq<ScoredMove>;

/// Calls `arrayvec::ArrayVec::new`: an empty list.
#[verifier::external_body]
pub(crate) fn list_new() -> (r: arrayvec::ArrayVec<ScoredMove, 218>)
    ensures
        scored_items(r) == Seq::<ScoredMove>::empty(),
{
    arrayvec::ArrayVec::new()
}

/// Calls `arrayvec::ArrayVec::push`: appends `x` (the list must not be full; the call
/// panics on a full one).
#[verifier::external_body]
pub(crate) fn list_push(v: &mut arrayvec::ArrayVec<ScoredMove, 218>, x: ScoredMove)
    requires
        scored_items(*old(v)).len() < MAX_MOVES,
    ensures
        scored_items(*final(v)) == scored_items(*old(v)).push(x),
{
    v.push(x)
}

/// Calls `arrayvec::ArrayVec::swap_remove`: takes out the entry at `i` and puts the last
/// entry in its place (the call panics on an index out of bounds).
#[verifier::external_body]
pub(crate) fn list_swap_remove(v: &mut arrayvec::ArrayVec<ScoredMove, 218>, i: usize) -> (r: ScoredMove)
    requires
        i < scored_items(*old(v)).len(),
    ensures
        r == scored_items(*old(v))[i as int],
        scored_items(*final(v)) == swap_removed(scored_items(*old(v)), i as int),
{
    v.swap_remove(i)
}

/// Calls `arrayvec::ArrayVec::as_slice`: the entries, in order.
#[verifier::external_body]
pub(crate) fn list_slice(v: &arrayvec::ArrayVec<ScoredMove, 218>) -> (r: &[ScoredMove])
    ensures
        r@ == scored_items(*v),
{
    v.as_slice()
}

} // verus!
