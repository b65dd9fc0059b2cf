use vstd::prelude::*;
use crate::account::AccountId;
use crate::agreement::{quorum_met, quorum_met_spec, Agreement};
use crate::errors::ErrorCode;
use crate::game::Game;
use crate::ledger::TransferStep;

verus! {

/// The transfers a successful collection performs: for each bet, in
/// registration order, one unit from the player's stake account into the
/// arbiter's escrow account for that bet, authorized by the arbiter as the
/// player's delegate.
pub open spec fn collect_transfers(g: Game) -> Seq<TransferStep> {
    Seq::new(
        g.bets@.len(),
        |i: int|
            TransferStep {
                amount: 1,
                from: g.bets@[i].player_ata,
                to: g.bets@[i].arbiter_ata,
                authorizer: g.arbiter,
            },
    )
}

/// The transfers a successful distribution performs: for each bet, in
/// registration order, one unit from the arbiter's escrow account for that
/// bet into the bet's bound payout account, authorized by the arbiter.
pub open spec fn drop_transfers(g: Game) -> Seq<TransferStep> {
    Seq::new(
        g.bets@.len(),
        |i: int|
            TransferStep {
                amount: 1,
                from: g.bets@[i].arbiter_ata,
                to: g.bets@[i].winner_ata.unwrap(),
                authorizer: g.arbiter,
            },
    )
}

/// The supplied account list holds, for every bet, both the player's stake
/// account and the arbiter's escrow account.
pub open spec fn collect_accounts_cover(g: Game, accounts: Seq<AccountId>) -> bool {
    forall|i: int|
        0 <= i < g.bets@.len() ==> accounts.contains(g.bets@[i].player_ata) && accounts.contains(
            g.bets@[i].arbiter_ata,
        )
}

/// The supplied account list holds, for every bet, both the arbiter's
/// escrow account and the bet's bound payout account.
pub open spec fn drop_accounts_cover(g: Game, accounts: Seq<AccountId>) -> bool {
    forall|i: int|
        0 <= i < g.bets@.len() ==> accounts.contains(g.bets@[i].arbiter_ata) && (g.bets@[i].winner_ata
            is Some && accounts.contains(g.bets@[i].winner_ata.unwrap()))
}

/// Every bet has a payout account bound.
pub open spec fn all_payouts_bound(g: Game) -> bool {
    forall|i: int| 0 <= i < g.bets@.len() ==> g.bets@[i].winner_ata is Some
}

/// Whether `accounts` holds `target`.
pub fn contains_account(accounts: &Vec<AccountId>, target: AccountId) -> (r: bool)
    ensures
        r == accounts@.contains(target),
{
    let n = accounts.len();
    let mut i: usize = 0;
    while i < n
        invariant
            i <= n,
            n == accounts@.len(),
            forall|j: int| 0 <= j < i ==> accounts@[j] != target,
        decreases n - i,
    {
        if accounts[i] == target {
            return true;
        }
        i = i + 1;
    }
    false
}

/// Collects every stake into the arbiter's escrow, exactly once, gated by
/// unanimous approval.
///
/// Fails with `AlreadyExecuted` if collection already happened, with
/// `NotEnoughSigners` while quorum is not met, and with
/// `WrongRemainingAccounts` unless the supplied account list has exactly
/// two entries per bet and covers every bet's stake and escrow account. On
/// success it marks the agreement executed and returns the ordered
/// transfers, one per bet in registration order, each moving one unit from
/// that bet's stake account to its escrow account; the boundary executes
/// them as one atomic ledger transaction. On failure nothing changes and
/// no transfer is requested.
#[verifier::loop_isolation(false)]
pub fn collect_loot(
    game: &Game,
    agreement: &mut Agreement,
    remaining_accounts: &Vec<AccountId>,
) -> (r: Result<Vec<TransferStep>, ErrorCode>)
    ensures
        r is Ok <==> !old(agreement).did_execute && quorum_met_spec(*game, *old(agreement))
            && remaining_accounts@.len() == 2 * game.bets@.len() && collect_accounts_cover(
            *game,
            remaining_accounts@,
        ),
        r == Err::<Vec<TransferStep>, ErrorCode>(ErrorCode::AlreadyExecuted) <==> old(
            agreement,
        ).did_execute,
        r == Err::<Vec<TransferStep>, ErrorCode>(ErrorCode::NotEnoughSigners) <==> !old(
            agreement,
        ).did_execute && !quorum_met_spec(*game, *old(agreement)),
        r == Err::<Vec<TransferStep>, ErrorCode>(ErrorCode::WrongRemainingAccounts) <==> !old(
            agreement,
        ).did_execute && quorum_met_spec(*game, *old(agreement)) && !(remaining_accounts@.len() == 2
            * game.bets@.len() && collect_accounts_cover(*game, remaining_accounts@)),
        r is Err ==> *final(agreement) == *old(agreement),
        r matches Ok(ts) ==> ts@.len() == game.bets@.len() && ts@ == collect_transfers(*game)
            && *final(agreement) == (Agreement { did_execute: true, ..*old(agreement) }),
{
    if agreement.did_execute {
        return Err(ErrorCode::AlreadyExecuted);
    }
    if !quorum_met(game, agreement) {
        return Err(ErrorCode::NotEnoughSigners);
    }
    let n = game.bets.len();
    let m = remaining_accounts.len();
    // m == 2 * n, stated without the doubling that could overflow usize
    if !(n <= m && m - n == n) {
        return Err(ErrorCode::WrongRemainingAccounts);
    }
    let mut transfers: Vec<TransferStep> = Vec::new();
    let mut i: usize = 0;
    while i < n
        invariant
            i <= n,
            transfers@.len() == i,
            forall|j: int| 0 <= j < i ==> transfers@[j] == collect_transfers(*game)[j],
            forall|j: int|
                0 <= j < i ==> remaining_accounts@.contains(game.bets@[j].player_ata)
                    && remaining_accounts@.contains(game.bets@[j].arbiter_ata),
            *agreement == *old(agreement),
        decreases n - i,
    {
        let bet = game.bets[i];
        if !contains_account(remaining_accounts, bet.player_ata) {
            return Err(ErrorCode::WrongRemainingAccounts);
        }
        if !contains_account(remaining_accounts, bet.arbiter_ata) {
            return Err(ErrorCode::WrongRemainingAccounts);
        }
        transfers.push(
            TransferStep {
                amount: 1,
                from: bet.player_ata,
                to: bet.arbiter_ata,
                authorizer: game.arbiter,
            },
        );
        i = i + 1;
    }
    proof {
        assert(transfers@ =~= collect_transfers(*game));
    }
    agreement.did_execute = true;
    Ok(transfers)
}

/// Distributes the escrowed stakes to the winner, exactly once, gated by a
/// completed collection, a declared winner, and a payout account bound on
/// every bet.
///
/// Fails with `AlreadyExecuted` once distribution already happened, with
/// `NotReady` while collection has not happened, no winner is declared, or
/// some bet lacks a payout account, and with `WrongRemainingAccounts`
/// unless the supplied account list covers every bet's escrow and payout
/// account. On success it marks the agreement settled and returns the
/// ordered transfers, one per bet in registration order, each moving one
/// unit from that bet's escrow account to its bound payout account; the
/// boundary executes them as one atomic ledger transaction. On failure
/// nothing changes and no transfer is requested.
#[verifier::loop_isolation(false)]
pub fn drop_loot(
    game: &Game,
    agreement: &mut Agreement,
    remaining_accounts: &Vec<AccountId>,
) -> (r: Result<Vec<TransferStep>, ErrorCode>)
    ensures
        r is Ok <==> !old(agreement).settled && old(agreement).did_execute && game.winner is Some
            && all_payouts_bound(*game) && drop_accounts_cover(*game, remaining_accounts@),
        r == Err::<Vec<TransferStep>, ErrorCode>(ErrorCode::AlreadyExecuted) <==> old(
            agreement,
        ).settled,
        r == Err::<Vec<TransferStep>, ErrorCode>(ErrorCode::NotReady) <==> !old(agreement).settled
            && !(old(agreement).did_execute && game.winner is Some && all_payouts_bound(*game)),
        r == Err::<Vec<TransferStep>, ErrorCode>(ErrorCode::WrongRemainingAccounts) <==> !old(
            agreement,
        ).settled && old(agreement).did_execute && game.winner is Some && all_payouts_bound(*game)
            && !drop_accounts_cover(*game, remaining_accounts@),
        r is Err ==> *final(agreement) == *old(agreement),
        r matches Ok(ts) ==> ts@.len() == game.bets@.len() && ts@ == drop_transfers(*game)
            && *final(agreement) == (Agreement { settled: true, ..*old(agreement) }),
{
    if agreement.settled {
        return Err(ErrorCode::AlreadyExecuted);
    }
    if !agreement.did_execute {
        return Err(ErrorCode::NotReady);
    }
    if game.winner.is_none() {
        return Err(ErrorCode::NotReady);
    }
    let n = game.bets.len();
    let mut i: usize = 0;
    while i < n
        invariant
            i <= n,
            forall|j: int| 0 <= j < i ==> game.bets@[j].winner_ata is Some,
        decreases n - i,
    {
        if game.bets[i].winner_ata.is_none() {
            return Err(ErrorCode::NotReady);
        }
        i = i + 1;
    }
    let mut transfers: Vec<TransferStep> = Vec::new();
    let mut k: usize = 0;
    while k < n
        invariant
            k <= n,
            transfers@.len() == k,
            all_payouts_bound(*game),
            forall|j: int| 0 <= j < k ==> transfers@[j] == drop_transfers(*game)[j],
            forall|j: int|
                0 <= j < k ==> remaining_accounts@.contains(game.bets@[j].arbiter_ata)
                    && remaining_accounts@.contains(game.bets@[j].winner_ata.unwrap()),
            *agreement == *old(agreement),
        decreases n - k,
    {
        let bet = game.bets[k];
        if !contains_account(remaining_accounts, bet.arbiter_ata) {
            return Err(ErrorCode::WrongRemainingAccounts);
        }
        let payout = bet.winner_ata.unwrap();
        if !contains_account(remaining_accounts, payout) {
            return Err(ErrorCode::WrongRemainingAccounts);
        }
        transfers.push(
            TransferStep { amount: 1, from: bet.arbiter_ata, to: payout, authorizer: game.arbiter },
        );
        k = k + 1;
    }
    proof {
        assert(transfers@ =~= drop_transfers(*game));
    }
    agreement.settled = true;
    Ok(transfers)
}

} // verus!
