use vstd::prelude::*;
use vstd::pervasive::VecAdditionalExecFns;
use crate::account::AccountId;
use crate::errors::ErrorCode;

verus! {

/// One participant's stake in a game.
#[derive(Clone, Copy, Debug, PartialEq, Eq)]
pub struct PlayerBet {
    /// The player's identity.
    pub player_authority: AccountId,
    /// The player's stake token account, debited at collection.
    pub player_ata: AccountId,
    /// The asset (mint) identity of the staked token; payout binding is
    /// addressed by this, not by the player identity.
    pub player_mint_key: AccountId,
    /// The arbiter's escrow token account that receives this stake.
    pub arbiter_ata: AccountId,
    /// The payout token account for this stake, bound only after a winner
    /// is declared.
    pub winner_ata: Option<AccountId>,
}

/// The record of an arbiter-managed wager: a fixed set of participant bets,
/// in registration order (which is also settlement order), and an eventual
/// winner.
#[derive(Clone, Debug, PartialEq, Eq)]
pub struct Game {
    /// The registered bets; insertion order is settlement order.
    pub bets: Vec<PlayerBet>,
    /// The arbiter managing the game.
    pub arbiter: AccountId,
    /// The declared winner; absent until set, and set at most once.
    pub winner: Option<AccountId>,
    /// Set once the settlement agreement is created: no bet may be added
    /// afterwards, so the agreement's signer flags stay aligned with the
    /// bets they were sized against.
    pub locked: bool,
}

/// Whether some bet in `bets` belongs to player `who`.
pub open spec fn has_player(bets: Seq<PlayerBet>, who: AccountId) -> bool {
    exists|i: int| 0 <= i < bets.len() && bets[i].player_authority == who
}

/// `i` is the position of the first bet belonging to player `who`.
pub open spec fn is_first_player_index(bets: Seq<PlayerBet>, who: AccountId, i: int) -> bool {
    &&& 0 <= i < bets.len()
    &&& bets[i].player_authority == who
    &&& forall|j: int| 0 <= j < i ==> bets[j].player_authority != who
}

/// The position of the first bet belonging to player `who` (meaningful only
/// when `has_player(bets, who)` holds).
pub open spec fn first_player_index(bets: Seq<PlayerBet>, who: AccountId) -> int {
    choose|i: int| is_first_player_index(bets, who, i)
}

/// Whether some bet in `bets` stakes the asset `mint`.
pub open spec fn has_mint(bets: Seq<PlayerBet>, mint: AccountId) -> bool {
    exists|i: int| 0 <= i < bets.len() && bets[i].player_mint_key == mint
}

/// `i` is the position of the first bet staking the asset `mint`.
pub open spec fn is_first_mint_index(bets: Seq<PlayerBet>, mint: AccountId, i: int) -> bool {
    &&& 0 <= i < bets.len()
    &&& bets[i].player_mint_key == mint
    &&& forall|j: int| 0 <= j < i ==> bets[j].player_mint_key != mint
}

/// The position of the first bet staking the asset `mint` (meaningful only
/// when `has_mint(bets, mint)` holds).
pub open spec fn first_mint_index(bets: Seq<PlayerBet>, mint: AccountId) -> int {
    choose|i: int| is_first_mint_index(bets, mint, i)
}

impl Game {
    /// The game's structural invariant: bets are unique by player identity,
    /// and the winner, once declared, is one of the players.
    pub open spec fn wf(self) -> bool {
        &&& forall|i: int, j: int|
            0 <= i < j < self.bets@.len() ==> self.bets@[i].player_authority
                != self.bets@[j].player_authority
        &&& self.winner is Some ==> has_player(self.bets@, self.winner.unwrap())
    }
}

/// Finds the first bet belonging to player `who`, if any.
pub fn find_player(bets: &Vec<PlayerBet>, who: AccountId) -> (r: Option<usize>)
    ensures
        match r {
            Some(i) => is_first_player_index(bets@, who, i as int) && i as int
                == first_player_index(bets@, who),
            None => !has_player(bets@, who),
        },
{
    let n = bets.len();
    let mut i: usize = 0;
    while i < n
        invariant
            i <= n,
            n == bets@.len(),
            forall|j: int| 0 <= j < i ==> bets@[j].player_authority != who,
        decreases n - i,
    {
        if bets[i].player_authority == who {
            proof {
                assert(is_first_player_index(bets@, who, i as int));
                let k = first_player_index(bets@, who);
                assert(is_first_player_index(bets@, who, k));
                assert(k == i as int);
            }
            return Some(i);
        }
        i = i + 1;
    }
    None
}

/// Finds the first bet staking the asset `mint`, if any.
pub fn find_mint(bets: &Vec<PlayerBet>, mint: AccountId) -> (r: Option<usize>)
    ensures
        match r {
            Some(i) => is_first_mint_index(bets@, mint, i as int) && i as int
                == first_mint_index(bets@, mint),
            None => !has_mint(bets@, mint),
        },
{
    let n = bets.len();
    let mut i: usize = 0;
    while i < n
        invariant
            i <= n,
            n == bets@.len(),
            forall|j: int| 0 <= j < i ==> bets@[j].player_mint_key != mint,
        decreases n - i,
    {
        if bets[i].player_mint_key == mint {
            proof {
                assert(is_first_mint_index(bets@, mint, i as int));
                let k = first_mint_index(bets@, mint);
                assert(is_first_mint_index(bets@, mint, k));
                assert(k == i as int);
            }
            return Some(i);
        }
        i = i + 1;
    }
    None
}

/// Produces a fresh game managed by `arbiter`, with no bets and no winner.
pub fn create_game(arbiter: AccountId) -> (g: Game)
    ensures
        g.arbiter == arbiter,
        g.bets@.len() == 0,
        g.winner is None,
        !g.locked,
        g.wf(),
{
    Game { bets: Vec::new(), arbiter, winner: None, locked: false }
}

/// Registers a new bet for `player_authority`, staking the token of
/// `player_mint_key` held in `player_ata`, escrowed to `arbiter_ata`.
///
/// Fails with `AlreadyExecuted` once the settlement agreement exists (the
/// game is locked), and with `DuplicateBet` if the player already has a
/// bet; otherwise appends the bet, with no payout account bound yet,
/// preserving all prior bets and their order.
///
/// Only the game's arbiter may register bets; that capability is
/// authenticated by the platform boundary before this runs, as are all
/// "must be signed by" constraints of the other operations.
pub fn add_bet(
    game: &mut Game,
    player_authority: AccountId,
    player_ata: AccountId,
    player_mint_key: AccountId,
    arbiter_ata: AccountId,
) -> (r: Result<(), ErrorCode>)
    ensures
        r is Ok <==> !old(game).locked && !has_player(old(game).bets@, player_authority),
        r == Err::<(), ErrorCode>(ErrorCode::AlreadyExecuted) <==> old(game).locked,
        r == Err::<(), ErrorCode>(ErrorCode::DuplicateBet) <==> !old(game).locked && has_player(
            old(game).bets@,
            player_authority,
        ),
        r is Err ==> *final(game) == *old(game),
        r is Ok ==> final(game).bets@ == old(game).bets@.push(
            PlayerBet {
                player_authority,
                player_ata,
                player_mint_key,
                arbiter_ata,
                winner_ata: None,
            },
        ) && final(game).arbiter == old(game).arbiter && final(game).winner == old(game).winner
            && final(game).locked == old(game).locked,
        old(game).wf() ==> final(game).wf(),
{
    if game.locked {
        return Err(ErrorCode::AlreadyExecuted);
    }
    match find_player(&game.bets, player_authority) {
        Some(_) => Err(ErrorCode::DuplicateBet),
        None => {
            let new_bet = PlayerBet {
                player_authority,
                player_ata,
                player_mint_key,
                arbiter_ata,
                winner_ata: None,
            };
            game.bets.push(new_bet);
            proof {
                let gb = old(game).bets@;
                if old(game).wf() {
                    assert(forall|i: int, j: int|
                        0 <= i < j < game.bets@.len() ==> game.bets@[i].player_authority
                            != game.bets@[j].player_authority) by {
                        assert(forall|i: int|
                            0 <= i < gb.len() ==> game.bets@[i] == gb[i]);
                    }
                    if game.winner is Some {
                        let w = game.winner.unwrap();
                        let i = choose|i: int| 0 <= i < gb.len() && gb[i].player_authority == w;
                        assert(game.bets@[i].player_authority == w);
                    }
                }
            }
            Ok(())
        },
    }
}

/// The outcome of declaring `winner` on game `g`: the updated game on
/// success, the exact error otherwise.
pub open spec fn set_winner_result(g: Game, winner: AccountId) -> Result<Game, ErrorCode> {
    if g.winner is Some {
        Err(ErrorCode::AlreadyExecuted)
    } else if !has_player(g.bets@, winner) {
        Err(ErrorCode::InvalidPlayer)
    } else {
        Ok(Game { winner: Some(winner), ..g })
    }
}

/// Declares `winner` as the game's winner, permanently.
///
/// Fails with `AlreadyExecuted` if a winner was already declared, and with
/// `InvalidPlayer` if `winner` matches no bet; otherwise records the winner
/// and changes nothing else.
pub fn set_winner(game: &mut Game, winner: AccountId) -> (r: Result<(), ErrorCode>)
    ensures
        r is Ok <==> old(game).winner is None && has_player(old(game).bets@, winner),
        r == Err::<(), ErrorCode>(ErrorCode::AlreadyExecuted) <==> old(game).winner is Some,
        r == Err::<(), ErrorCode>(ErrorCode::InvalidPlayer) <==> old(game).winner is None
            && !has_player(old(game).bets@, winner),
        r is Err ==> *final(game) == *old(game),
        r is Ok ==> set_winner_result(*old(game), winner) == Ok::<Game, ErrorCode>(*final(game)),
        r is Ok ==> *final(game) == (Game { winner: Some(winner), ..*old(game) }),
        r matches Err(e) ==> set_winner_result(*old(game), winner) == Err::<Game, ErrorCode>(e),
        old(game).wf() ==> final(game).wf(),
{
    if game.winner.is_some() {
        return Err(ErrorCode::AlreadyExecuted);
    }
    match find_player(&game.bets, winner) {
        None => Err(ErrorCode::InvalidPlayer),
        Some(_) => {
            game.winner = Some(winner);
            Ok(())
        },
    }
}

/// A winner is declared at most once: whatever game a successful
/// declaration produced, any further declaration on it, for any candidate,
/// fails with `AlreadyExecuted`.
pub proof fn lemma_set_winner_at_most_once(g: Game, w1: AccountId, g1: Game, w2: AccountId)
    requires
        set_winner_result(g, w1) == Ok::<Game, ErrorCode>(g1),
    ensures
        set_winner_result(g1, w2) == Err::<Game, ErrorCode>(ErrorCode::AlreadyExecuted),
{
}

/// In a well-formed game, distinct players hold distinct bet positions, so
/// approvals by distinct players set distinct signer flags.
pub proof fn lemma_distinct_players_distinct_indices(g: Game, w1: AccountId, w2: AccountId)
    requires
        g.wf(),
        has_player(g.bets@, w1),
        has_player(g.bets@, w2),
        w1 != w2,
    ensures
        first_player_index(g.bets@, w1) != first_player_index(g.bets@, w2),
{
    let i1 = choose|i: int| 0 <= i < g.bets@.len() && g.bets@[i].player_authority == w1;
    let i2 = choose|i: int| 0 <= i < g.bets@.len() && g.bets@[i].player_authority == w2;
    lemma_first_player_index_exists(g.bets@, w1, i1);
    lemma_first_player_index_exists(g.bets@, w2, i2);
}

/// Whenever some bet at position `w` belongs to `who`, a first such
/// position exists, and `first_player_index` designates it.
pub proof fn lemma_first_player_index_exists(bets: Seq<PlayerBet>, who: AccountId, w: int)
    requires
        0 <= w < bets.len(),
        bets[w].player_authority == who,
    ensures
        is_first_player_index(bets, who, first_player_index(bets, who)),
    decreases w,
{
    if exists|j: int| 0 <= j < w && bets[j].player_authority == who {
        let j = choose|j: int| 0 <= j < w && bets[j].player_authority == who;
        lemma_first_player_index_exists(bets, who, j);
    } else {
        assert(is_first_player_index(bets, who, w));
    }
}

/// Binds `winner_associated_token` as the payout account of the bet that
/// stakes the asset `trophy`.
///
/// Fails with `NotReady` until a winner has been declared, and with
/// `InvalidPlayer` if no bet stakes `trophy`; otherwise rebinds that bet's
/// payout account (overwriting any earlier binding) and changes nothing
/// else.
pub fn set_winner_account(
    game: &mut Game,
    trophy: AccountId,
    winner_associated_token: AccountId,
) -> (r: Result<(), ErrorCode>)
    ensures
        r is Ok <==> old(game).winner is Some && has_mint(old(game).bets@, trophy),
        r == Err::<(), ErrorCode>(ErrorCode::NotReady) <==> old(game).winner is None,
        r == Err::<(), ErrorCode>(ErrorCode::InvalidPlayer) <==> old(game).winner is Some
            && !has_mint(old(game).bets@, trophy),
        r is Err ==> *final(game) == *old(game),
        r is Ok ==> ({
            let i = first_mint_index(old(game).bets@, trophy);
            &&& is_first_mint_index(old(game).bets@, trophy, i)
            &&& final(game).bets@ == old(game).bets@.update(
                i,
                PlayerBet { winner_ata: Some(winner_associated_token), ..old(game).bets@[i] },
            )
            &&& final(game).arbiter == old(game).arbiter
            &&& final(game).winner == old(game).winner
            &&& final(game).locked == old(game).locked
        }),
        old(game).wf() ==> final(game).wf(),
{
    if game.winner.is_none() {
        return Err(ErrorCode::NotReady);
    }
    match find_mint(&game.bets, trophy) {
        None => Err(ErrorCode::InvalidPlayer),
        Some(i) => {
            let bet = game.bets[i];
            let rebound = PlayerBet { winner_ata: Some(winner_associated_token), ..bet };
            game.bets.set(i, rebound);
            proof {
                let gb = old(game).bets@;
                if old(game).wf() {
                    assert(forall|p: int, q: int|
                        0 <= p < q < game.bets@.len() ==> game.bets@[p].player_authority
                            != game.bets@[q].player_authority) by {
                        assert(forall|p: int|
                            0 <= p < gb.len() ==> game.bets@[p].player_authority
                                == gb[p].player_authority);
                    }
                    if game.winner is Some {
                        let w = game.winner.unwrap();
                        let k = choose|k: int| 0 <= k < gb.len() && gb[k].player_authority == w;
                        assert(game.bets@[k].player_authority == w);
                    }
                }
            }
            Ok(())
        },
    }
}

} // verus!
