//! Lists that the ledger's host keeps.
use vstd::prelude::*;

verus! {

/// The host of a contract.
#[verifier::external_type_specification]
#[verifier::external_body]
pub struct ExEnv(soroban_sdk::Env);

/// A list that the host keeps.
#[verifier::external_type_specification]
#[verifier::external_body]
#[verifier::reject_recursive_types(T)]
pub struct ExVec<T>(soroban_sdk::Vec<T>);

/// The items of a list of the host, in order.
pub uninterp spec fn items(list: soroban_sdk::Vec<i128>) -> Seq<i128>;

/// An empty list, by `soroban_sdk::Vec::new`. Trusted: that it holds nothing.
/// That the host has the means for it is not stated.
#[verifier::external_body]
pub(crate) fn empty_list(host: &soroban_sdk::Env) -> (list: soroban_sdk::Vec<i128>)
    ensures
        items(list) == Seq::<i128>::empty(),
{
    soroban_sdk::Vec::new(host)
}

/// Adds an item at the end, by `soroban_sdk::Vec::push_back`. Trusted: that
/// the list grows by that item and changes in nothing else. That the host has
/// the means for it is not stated.
#[verifier::external_body]
pub(crate) fn push(list: &mut soroban_sdk::Vec<i128>, item: i128)
    requires
        items(*old(list)).len() < u32::MAX,
    ensures
        items(*final(list)) == items(*old(list)).push(item),
{
    list.push_back(item)
}

/// The number of items, by `soroban_sdk::Vec::len`. Trusted: that it is the
/// length of the list.
#[verifier::external_body]
pub(crate) fn length(list: &soroban_sdk::Vec<i128>) -> (n: u32)
    ensures
        n == items(*list).len(),
{
    list.len()
}

/// The item at a place, by `soroban_sdk::Vec::get`. Trusted: that it is the
/// item, and that there is none past the end.
#[verifier::external_body]
pub(crate) fn item(list: &soroban_sdk::Vec<i128>, i: u32) -> (r: Option<i128>)
    ensures
        r == if i < items(*list).len() {
            Some(items(*list)[i as int])
        } else {
            None
        },
{
    list.get(i)
}

/// Puts an item at a place, by `soroban_sdk::Vec::set`, which panics past the
/// end. Trusted: that the item at that place is replaced and no other.
#[verifier::external_body]
pub(crate) fn replace(list: &mut soroban_sdk::Vec<i128>, i: u32, item: i128)
    requires
        i < items(*old(list)).len(),
    ensures
        items(*final(list)) == items(*old(list)).update(i as int, item),
{
    list.set(i, item)
}

} // verus!
