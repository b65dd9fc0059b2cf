use vstd::prelude::*;
use crate::account::AccountId;

verus! {

/// One `transfer(amount, from, to, authorizer)` call for the external token
/// ledger to execute.
///
/// The core never moves funds itself: a settlement operation validates its
/// preconditions and returns the ordered transfers it requires, and the
/// boundary layer executes them against the ledger as one atomic
/// transaction (all succeed, or the whole operation has no effect).
#[derive(Clone, Copy, Debug, PartialEq, Eq, Structural)]
pub struct TransferStep {
    pub amount: u64,
    pub from: AccountId,
    pub to: AccountId,
    pub authorizer: AccountId,
}

/// One `approve(delegate, owner_account, amount)` call for the external
/// token ledger: it grants `delegate` spending rights up to `amount` on
/// `owner_account`.
///
/// Approving an agreement produces one of these so the arbiter can later
/// move the approver's stake during collection.
#[derive(Clone, Copy, Debug, PartialEq, Eq, Structural)]
pub struct ApproveStep {
    pub delegate: AccountId,
    pub owner_account: AccountId,
    pub amount: u64,
}

} // verus!
