use vstd::prelude::*;

verus! {

/// An opaque ledger account or identity, compared only for equality.
///
/// The platform addresses wallets, token accounts and asset mints by opaque
/// public keys; the core logic never looks inside one, it only matches them.
#[derive(Clone, Copy, Debug, PartialEq, Eq, Structural)]
pub struct AccountId {
    pub key: u64,
}

impl AccountId {
    pub fn new(key: u64) -> (a: AccountId)
        ensures
            a.key == key,
    {
        AccountId { key }
    }
}

} // verus!
