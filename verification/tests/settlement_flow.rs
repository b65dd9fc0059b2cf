use nft_bazzar::account::AccountId;
use nft_bazzar::agreement::{approve_agreement, create_agreement, Agreement};
use nft_bazzar::errors::ErrorCode;
use nft_bazzar::game::{add_bet, create_game, set_winner, set_winner_account, Game};
use nft_bazzar::ledger::TransferStep;
use nft_bazzar::settlement::{collect_loot, drop_loot};

fn acc(k: u64) -> AccountId {
    AccountId::new(k)
}

// A game with bets for players 10, 20, 30: stake accounts 11/21/31, mints
// 12/22/32, escrow accounts 13/23/33.
fn three_bet_game() -> Game {
    let mut g = create_game(acc(1));
    assert_eq!(add_bet(&mut g, acc(10), acc(11), acc(12), acc(13)), Ok(()));
    assert_eq!(add_bet(&mut g, acc(20), acc(21), acc(22), acc(23)), Ok(()));
    assert_eq!(add_bet(&mut g, acc(30), acc(31), acc(32), acc(33)), Ok(()));
    g
}

fn approved_agreement(g: &mut Game) -> Agreement {
    let mut a = create_agreement(g, acc(99));
    for p in [10, 20, 30] {
        assert!(approve_agreement(g, &mut a, acc(p)).is_ok());
    }
    a
}

fn collect_accounts() -> Vec<AccountId> {
    vec![acc(11), acc(13), acc(21), acc(23), acc(31), acc(33)]
}

#[test]
fn collect_requires_quorum_and_changes_nothing_without_it() {
    let mut g = three_bet_game();
    let mut a = create_agreement(&mut g, acc(99));
    assert!(approve_agreement(&g, &mut a, acc(10)).is_ok());
    assert!(approve_agreement(&g, &mut a, acc(20)).is_ok());
    let before = a.clone();
    assert_eq!(
        collect_loot(&g, &mut a, &collect_accounts()),
        Err(ErrorCode::NotEnoughSigners)
    );
    assert_eq!(a, before);
}

#[test]
fn collect_requires_two_accounts_per_bet() {
    let mut g = three_bet_game();
    let mut a = approved_agreement(&mut g);
    let short = vec![acc(11), acc(13), acc(21), acc(23)];
    assert_eq!(
        collect_loot(&g, &mut a, &short),
        Err(ErrorCode::WrongRemainingAccounts)
    );
    assert!(!a.did_execute);
}

#[test]
fn collect_requires_every_stake_and_escrow_account() {
    let mut g = three_bet_game();
    let mut a = approved_agreement(&mut g);
    // right size, but bet 30's escrow account 33 is missing
    let wrong = vec![acc(11), acc(13), acc(21), acc(23), acc(31), acc(44)];
    assert_eq!(
        collect_loot(&g, &mut a, &wrong),
        Err(ErrorCode::WrongRemainingAccounts)
    );
    assert!(!a.did_execute);
}

#[test]
fn collect_transfers_each_stake_into_escrow_in_order() {
    let mut g = three_bet_game();
    let mut a = approved_agreement(&mut g);
    let transfers = collect_loot(&g, &mut a, &collect_accounts()).unwrap();
    let expected: Vec<TransferStep> = [(11, 13), (21, 23), (31, 33)]
        .iter()
        .map(|&(from, to)| TransferStep {
            amount: 1,
            from: acc(from),
            to: acc(to),
            authorizer: acc(1),
        })
        .collect();
    assert_eq!(transfers, expected);
    assert!(a.did_execute);
    assert!(!a.settled);
}

#[test]
fn collect_happens_at_most_once() {
    let mut g = three_bet_game();
    let mut a = approved_agreement(&mut g);
    assert!(collect_loot(&g, &mut a, &collect_accounts()).is_ok());
    assert_eq!(
        collect_loot(&g, &mut a, &collect_accounts()),
        Err(ErrorCode::AlreadyExecuted)
    );
}

#[test]
fn collect_on_empty_game_is_a_trivial_quorum() {
    let mut g = create_game(acc(1));
    let mut a = create_agreement(&mut g, acc(99));
    let transfers = collect_loot(&g, &mut a, &Vec::new()).unwrap();
    assert!(transfers.is_empty());
    assert!(a.did_execute);
}

#[test]
fn drop_before_collect_fails_not_ready_whatever_else_holds() {
    let mut g = three_bet_game();
    let mut a = approved_agreement(&mut g);
    // winner declared and every payout bound; only collection is missing
    assert_eq!(set_winner(&mut g, acc(20)), Ok(()));
    for mint in [12, 22, 32] {
        assert_eq!(set_winner_account(&mut g, acc(mint), acc(77)), Ok(()));
    }
    let accounts = vec![acc(13), acc(23), acc(33), acc(77)];
    assert_eq!(
        drop_loot(&g, &mut a, &accounts),
        Err(ErrorCode::NotReady)
    );
    assert!(!a.settled);
}

#[test]
fn drop_requires_winner_and_bound_payouts() {
    let mut g = three_bet_game();
    let mut a = approved_agreement(&mut g);
    assert!(collect_loot(&g, &mut a, &collect_accounts()).is_ok());
    let accounts = vec![acc(13), acc(23), acc(33), acc(77)];
    // no winner yet
    assert_eq!(drop_loot(&g, &mut a, &accounts), Err(ErrorCode::NotReady));
    assert_eq!(set_winner(&mut g, acc(20)), Ok(()));
    // winner set, but payout accounts not all bound
    assert_eq!(set_winner_account(&mut g, acc(12), acc(77)), Ok(()));
    assert_eq!(drop_loot(&g, &mut a, &accounts), Err(ErrorCode::NotReady));
    assert!(!a.settled);
}

#[test]
fn drop_requires_every_escrow_and_payout_account() {
    let mut g = three_bet_game();
    let mut a = approved_agreement(&mut g);
    assert!(collect_loot(&g, &mut a, &collect_accounts()).is_ok());
    assert_eq!(set_winner(&mut g, acc(20)), Ok(()));
    for mint in [12, 22, 32] {
        assert_eq!(set_winner_account(&mut g, acc(mint), acc(77)), Ok(()));
    }
    // payout account 77 is missing from the supplied list
    let wrong = vec![acc(13), acc(23), acc(33)];
    assert_eq!(
        drop_loot(&g, &mut a, &wrong),
        Err(ErrorCode::WrongRemainingAccounts)
    );
    assert!(!a.settled);
}

#[test]
fn full_settlement_moves_every_stake_to_the_winner() {
    // Game with bets for players A=10, B=20, C=30; all three approve;
    // collection succeeds; the arbiter declares B the winner and binds all
    // three payouts to B's payout account; distribution succeeds in A,B,C
    // order.
    let mut g = three_bet_game();
    let mut a = approved_agreement(&mut g);

    let collected = collect_loot(&g, &mut a, &collect_accounts()).unwrap();
    assert_eq!(collected.len(), 3);
    for (i, (stake, escrow)) in [(11, 13), (21, 23), (31, 33)].iter().enumerate() {
        assert_eq!(collected[i].amount, 1);
        assert_eq!(collected[i].from, acc(*stake));
        assert_eq!(collected[i].to, acc(*escrow));
        assert_eq!(collected[i].authorizer, acc(1));
    }
    assert!(a.did_execute);

    assert_eq!(set_winner(&mut g, acc(20)), Ok(()));
    let winner_payout = acc(77);
    for mint in [12, 22, 32] {
        assert_eq!(set_winner_account(&mut g, acc(mint), winner_payout), Ok(()));
    }

    let accounts = vec![acc(13), acc(23), acc(33), winner_payout];
    let dropped = drop_loot(&g, &mut a, &accounts).unwrap();
    assert_eq!(dropped.len(), 3);
    for (i, escrow) in [13, 23, 33].iter().enumerate() {
        assert_eq!(dropped[i].amount, 1);
        assert_eq!(dropped[i].from, acc(*escrow));
        assert_eq!(dropped[i].to, winner_payout);
        assert_eq!(dropped[i].authorizer, acc(1));
    }
    assert!(a.settled);

    // distribution happens at most once
    assert_eq!(
        drop_loot(&g, &mut a, &accounts),
        Err(ErrorCode::AlreadyExecuted)
    );
}
