use vstd::prelude::*;
use vstd::pervasive::VecAdditionalExecFns;
use crate::account::AccountId;
use crate::errors::ErrorCode;
use crate::game::{first_player_index, has_player, is_first_player_index, Game};
use crate::ledger::ApproveStep;

verus! {

/// The quorum-approval record gating fund collection for one game.
#[derive(Clone, Debug, PartialEq, Eq)]
pub struct Agreement {
    /// The key of the game this agreement settles.
    pub game: AccountId,
    /// `signers[i]` is true iff the player of the game's bet `i` approved
    /// the agreement; sized to the bet count at creation.
    pub signers: Vec<bool>,
    /// Set by a successful collection of the stakes into escrow; a
    /// prerequisite of distribution.
    pub did_execute: bool,
    /// Set by a successful distribution to the winner; the terminal state.
    pub settled: bool,
}

/// How many flags in `s` are true.
pub open spec fn count_true(s: Seq<bool>) -> nat
    decreases s.len(),
{
    if s.len() == 0 {
        0
    } else {
        count_true(s.drop_last()) + if s.last() {
            1nat
        } else {
            0nat
        }
    }
}

/// Quorum is unanimity: every registered bet is matched by a true signer
/// flag.
pub open spec fn quorum_met_spec(g: Game, a: Agreement) -> bool {
    count_true(a.signers@) == g.bets@.len()
}

/// No more flags can be true than there are flags.
pub proof fn lemma_count_true_bound(s: Seq<bool>)
    ensures
        count_true(s) <= s.len(),
    decreases s.len(),
{
    if s.len() > 0 {
        lemma_count_true_bound(s.drop_last());
    }
}

/// A vector of all-false flags has no true flag.
pub proof fn lemma_count_true_none(s: Seq<bool>)
    requires
        forall|i: int| 0 <= i < s.len() ==> !s[i],
    ensures
        count_true(s) == 0,
    decreases s.len(),
{
    if s.len() > 0 {
        lemma_count_true_none(s.drop_last());
    }
}

/// Every flag is true exactly when the count of true flags reaches the
/// length.
pub proof fn lemma_count_true_full(s: Seq<bool>)
    ensures
        (count_true(s) == s.len()) <==> (forall|i: int| 0 <= i < s.len() ==> s[i]),
    decreases s.len(),
{
    if s.len() > 0 {
        lemma_count_true_full(s.drop_last());
        lemma_count_true_bound(s.drop_last());
        assert(forall|i: int| 0 <= i < s.drop_last().len() ==> s.drop_last()[i] == s[i]);
    }
}

/// Setting one flag true raises the count by one if the flag was false,
/// and leaves it unchanged if the flag was already true.
pub proof fn lemma_count_true_set(s: Seq<bool>, i: int)
    requires
        0 <= i < s.len(),
    ensures
        count_true(s.update(i, true)) == count_true(s) + if s[i] {
            0nat
        } else {
            1nat
        },
    decreases s.len(),
{
    let t = s.update(i, true);
    if i == s.len() - 1 {
        assert(t.drop_last() =~= s.drop_last());
    } else {
        assert(t.drop_last() =~= s.drop_last().update(i, true));
        lemma_count_true_set(s.drop_last(), i);
    }
}

/// With the signer flags aligned to the bets, quorum — implemented as a
/// count comparison — is exactly unanimity: every signer flag is true.
pub proof fn lemma_quorum_is_unanimity(g: Game, a: Agreement)
    requires
        a.signers@.len() == g.bets@.len(),
    ensures
        quorum_met_spec(g, a) <==> (forall|i: int|
            0 <= i < a.signers@.len() ==> a.signers@[i]),
{
    lemma_count_true_full(a.signers@);
}

/// A signer vector of `n` flags, none of them yet approved: the state a
/// fresh agreement starts from.
pub open spec fn all_false(n: nat) -> Seq<bool> {
    Seq::new(n, |i: int| false)
}

/// The signer vector after approvals were recorded at each bet position in
/// `ps`, in order, starting from `s`.
pub open spec fn approve_positions(s: Seq<bool>, ps: Seq<int>) -> Seq<bool>
    decreases ps.len(),
{
    if ps.len() == 0 {
        s
    } else {
        approve_positions(s.update(ps.first(), true), ps.drop_first())
    }
}

/// Approvals at distinct, not-yet-approved positions each raise the count
/// of true flags by one.
proof fn lemma_count_after_new_approvals(s: Seq<bool>, ps: Seq<int>)
    requires
        forall|i: int| 0 <= i < ps.len() ==> 0 <= #[trigger] ps[i] < s.len() && !s[ps[i]],
        forall|i: int, j: int| 0 <= i < j < ps.len() ==> ps[i] != ps[j],
    ensures
        approve_positions(s, ps).len() == s.len(),
        count_true(approve_positions(s, ps)) == count_true(s) + ps.len(),
    decreases ps.len(),
{
    if ps.len() > 0 {
        let p = ps.first();
        let s1 = s.update(p, true);
        let rest = ps.drop_first();
        lemma_count_true_set(s, p);
        assert(forall|i: int|
            0 <= i < rest.len() ==> 0 <= #[trigger] rest[i] < s1.len() && !s1[rest[i]]) by {
            assert(forall|i: int| 0 <= i < rest.len() ==> rest[i] == ps[i + 1]);
        }
        lemma_count_after_new_approvals(s1, rest);
    }
}

/// After exactly `k` distinct valid approvals of an agreement created for a
/// game with `n` bets, the count of true signer flags is `k`, and quorum is
/// met iff `k == n`.
pub proof fn lemma_quorum_after_distinct_approvals(n: nat, ps: Seq<int>)
    requires
        forall|i: int| 0 <= i < ps.len() ==> 0 <= #[trigger] ps[i] < n,
        forall|i: int, j: int| 0 <= i < j < ps.len() ==> ps[i] != ps[j],
    ensures
        count_true(approve_positions(all_false(n), ps)) == ps.len(),
        (count_true(approve_positions(all_false(n), ps)) == n) <==> (ps.len() == n),
{
    lemma_count_true_none(all_false(n));
    lemma_count_after_new_approvals(all_false(n), ps);
}

/// Produces the agreement for `game`, recorded under the game's key
/// `game_key`: one false signer flag per registered bet, not yet executed,
/// not yet settled. Locks the game, so that no later bet can break the
/// index alignment between bets and signer flags.
pub fn create_agreement(game: &mut Game, game_key: AccountId) -> (a: Agreement)
    ensures
        a.game == game_key,
        a.signers@.len() == old(game).bets@.len(),
        forall|i: int| 0 <= i < a.signers@.len() ==> !a.signers@[i],
        !a.did_execute,
        !a.settled,
        count_true(a.signers@) == 0,
        *final(game) == (Game { locked: true, ..*old(game) }),
{
    let n = game.bets.len();
    let mut signers: Vec<bool> = Vec::new();
    let mut i: usize = 0;
    while i < n
        invariant
            i <= n,
            signers@.len() == i,
            forall|j: int| 0 <= j < i ==> !signers@[j],
        decreases n - i,
    {
        signers.push(false);
        i = i + 1;
    }
    game.locked = true;
    let a = Agreement { game: game_key, signers, did_execute: false, settled: false };
    proof {
        lemma_count_true_none(a.signers@);
    }
    a
}

/// Records `authority`'s approval of the agreement and produces the ledger
/// delegation that lets the arbiter later move the approver's stake: an
/// `approve` granting the arbiter rights over one unit of the approver's
/// stake account.
///
/// Fails with `InvalidPlayer` if `authority` has no bet in the game;
/// otherwise sets the signer flag at the approver's bet position.
/// Re-approval is a harmless no-op on the flags.
pub fn approve_agreement(game: &Game, agreement: &mut Agreement, authority: AccountId) -> (r:
    Result<ApproveStep, ErrorCode>)
    requires
        old(agreement).signers@.len() == game.bets@.len(),
    ensures
        r is Ok <==> has_player(game.bets@, authority),
        r == Err::<ApproveStep, ErrorCode>(ErrorCode::InvalidPlayer) <==> !has_player(
            game.bets@,
            authority,
        ),
        r is Err ==> *final(agreement) == *old(agreement),
        r matches Ok(step) ==> ({
            let i = first_player_index(game.bets@, authority);
            &&& is_first_player_index(game.bets@, authority, i)
            &&& final(agreement).signers@ == old(agreement).signers@.update(i, true)
            &&& step == (ApproveStep {
                delegate: game.arbiter,
                owner_account: game.bets@[i].player_ata,
                amount: 1,
            })
            &&& final(agreement).game == old(agreement).game
            &&& final(agreement).did_execute == old(agreement).did_execute
            &&& final(agreement).settled == old(agreement).settled
            &&& count_true(final(agreement).signers@) == count_true(old(agreement).signers@) + if old(
                agreement,
            ).signers@[i] {
                0nat
            } else {
                1nat
            }
        }),
{
    match crate::game::find_player(&game.bets, authority) {
        None => Err(ErrorCode::InvalidPlayer),
        Some(i) => {
            let step = ApproveStep {
                delegate: game.arbiter,
                owner_account: game.bets[i].player_ata,
                amount: 1,
            };
            proof {
                lemma_count_true_set(agreement.signers@, i as int);
            }
            agreement.signers.set(i, true);
            Ok(step)
        },
    }
}

/// Decides whether the agreement has quorum: every bet's player has
/// approved. Implemented, equivalently, as a comparison of the number of
/// true signer flags against the bet count.
pub fn quorum_met(game: &Game, agreement: &Agreement) -> (r: bool)
    ensures
        r == quorum_met_spec(*game, *agreement),
{
    let n = agreement.signers.len();
    let mut count: usize = 0;
    let mut i: usize = 0;
    while i < n
        invariant
            i <= n,
            count <= i,
            n == agreement.signers@.len(),
            count == count_true(agreement.signers@.take(i as int)),
        decreases n - i,
    {
        proof {
            assert(agreement.signers@.take(i + 1).drop_last() =~= agreement.signers@.take(
                i as int,
            ));
        }
        if agreement.signers[i] {
            count = count + 1;
        }
        i = i + 1;
    }
    proof {
        assert(agreement.signers@.take(n as int) =~= agreement.signers@);
    }
    count == game.bets.len()
}

} // verus!
