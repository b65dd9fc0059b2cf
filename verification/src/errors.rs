use vstd::prelude::*;

verus! {

/// The reasons a core operation can refuse to act.
///
/// Every precondition is checked before any state change; on failure the
/// operation aborts with one of these and leaves all records untouched.
/// Ledger-side failures (unauthorized transfer, insufficient funds) surface
/// at the boundary that executes the ledger actions, not here.
#[derive(Clone, Copy, Debug, PartialEq, Eq, Structural)]
pub enum ErrorCode {
    /// A bet for this player identity is already registered in the game.
    DuplicateBet,
    /// The given player is not part of this game.
    InvalidPlayer,
    /// Not every participant has approved the agreement.
    NotEnoughSigners,
    /// The one-shot step was already performed.
    AlreadyExecuted,
    /// Settlement prerequisites (collection done, winner declared, payout
    /// accounts bound) are not all in place.
    NotReady,
    /// The supplied account list does not cover the accounts settlement
    /// needs, or has the wrong size.
    WrongRemainingAccounts,
}

} // verus!
