//! The per-account list of open proposals, held in frame-support's `BoundedVec`.
use frame_support::traits::ConstU32;
use frame_support::BoundedVec;
use vstd::prelude::*;

verus! {

/// The most proposals an account can hold an open vote position in at once.
pub const MAX_PROPOSALS_ACCOUNT_CAN_VOTE: u32 = 3;

/// The list of proposal hashes an account has open positions in, oldest first.
pub type ProposalList = BoundedVec<u64, ConstU32<MAX_PROPOSALS_ACCOUNT_CAN_VOTE>>;

#[verifier::external_type_specification]
#[verifier::external_body]
pub struct ExConstU32<const N: u32>(ConstU32<N>);

#[verifier::external_type_specification]
#[verifier::external_body]
#[verifier::reject_recursive_types(T)]
#[verifier::reject_recursive_types(S)]
pub struct ExBoundedVec<T, S>(BoundedVec<T, S>);

/// The items of a proposal list, in order.
pub uninterp spec fn list_items(v: ProposalList) -> Seq<u64>;

/// Relies on `BoundedVec::new`: the new vector holds no items.
#[verifier::external_body]
pub(crate) fn list_new() -> (r: ProposalList)
    ensures
        list_items(r) == Seq::<u64>::empty(),
{
    BoundedVec::new()
}

/// Relies on `Clone for BoundedVec`: the copy holds the same items in the same order.
#[verifier::external_body]
pub(crate) fn list_clone(v: &ProposalList) -> (r: ProposalList)
    ensures
        list_items(r) == list_items(*v),
{
    v.clone()
}

/// Relies on `Vec::len` through `Deref for BoundedVec`: the number of items.
#[verifier::external_body]
pub(crate) fn list_len(v: &ProposalList) -> (r: usize)
    ensures
        r as int == list_items(*v).len(),
{
    v.len()
}

/// Relies on indexing through `Deref for BoundedVec`: the item at position `i`.
#[verifier::external_body]
pub(crate) fn list_get(v: &ProposalList, i: usize) -> (r: u64)
    requires
        (i as int) < list_items(*v).len(),
    ensures
        r == list_items(*v)[i as int],
{
    v[i]
}

/// Relies on `contains` through `Deref for BoundedVec`: whether `x` is among the items.
#[verifier::external_body]
pub(crate) fn list_contains(v: &ProposalList, x: u64) -> (r: bool)
    ensures
        r == list_items(*v).contains(x),
{
    v.contains(&x)
}

/// Relies on `BoundedVec::try_push`: the item is appended when the list is below its bound;
/// otherwise the list is left as it was and the item handed back.
#[verifier::external_body]
pub(crate) fn list_try_push(v: &mut ProposalList, x: u64) -> (r: Result<(), u64>)
    ensures
        r is Ok <==> list_items(*old(v)).len() < MAX_PROPOSALS_ACCOUNT_CAN_VOTE,
        r is Ok ==> list_items(*final(v)) == list_items(*old(v)).push(x),
        r is Err ==> list_items(*final(v)) == list_items(*old(v)) && r->Err_0 == x,
{
    v.try_push(x)
}

/// Relies on `BoundedVec::remove`: the item at position `i` is taken out, the rest keep
/// their order.
#[verifier::external_body]
pub(crate) fn list_remove(v: &mut ProposalList, i: usize) -> (r: u64)
    requires
        (i as int) < list_items(*old(v)).len(),
    ensures
        r == list_items(*old(v))[i as int],
        list_items(*final(v)) == list_items(*old(v)).remove(i as int),
{
    v.remove(i)
}

} // verus!
