//! A multi-party wagering escrow with quorum-gated, two-phase settlement.
//!
//! An arbiter registers a fixed set of participant stakes ("bets") for a
//! game, every participant must approve a settlement agreement before any
//! funds move, the stakes are collected into arbiter-controlled escrow
//! exactly once quorum (unanimity) is reached, the arbiter declares a winner
//! and binds payout destinations, and the escrowed stakes are distributed to
//! the winner exactly once.
//!
//! Fund movement itself is performed by an external token ledger. The
//! library validates every precondition and produces the ordered ledger
//! actions (transfers, delegate approvals) that a boundary layer executes as
//! a single atomic transaction; no ledger call happens inside the library.

pub mod account;
pub mod agreement;
pub mod errors;
pub mod game;
pub mod ledger;
pub mod settlement;
