//! Accounts, as the chain identifies them.

use vstd::prelude::*;

use ink::primitives::AccountId;

verus! {

/// `ink::primitives::AccountId`: thirty-two bytes behind a private field.
/// The library carries accounts and compares them; it never looks inside.
#[verifier::external_type_specification]
#[verifier::external_body]
pub struct ExAccountId(ink::primitives::AccountId);

/// Calls `eq` of `ink::primitives::AccountId`, which the type derives over
/// its thirty-two bytes: the answer is `true` exactly for two accounts of
/// the same bytes, that is, for the same account.
#[verifier::external_body]
pub(crate) fn same_account(a: &AccountId, b: &AccountId) -> (r: bool)
    ensures
        r == (*a == *b),
{
    a == b
}

/// Whether `caller` is the account that `owner` names.
pub fn is_owner(owner: &Option<AccountId>, caller: &AccountId) -> (r: bool)
    ensures
        r == (*owner == Some(*caller)),
{
    match owner {
        Some(o) => same_account(o, caller),
        None => false,
    }
}

} // verus!
