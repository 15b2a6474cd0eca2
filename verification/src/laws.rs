//! What holds of the game whatever the population and whatever the draws.

use crate::agent::{borrower_after, lender_after, outcome_fits, possible, AgentModel};
use crate::params::{GameParams, Outcome};
use crate::population::survivors;
use crate::reputation::TrackerModel;
use crate::strategy::StrategyModel;
use vstd::prelude::*;

verus! {

/// Where the payoff of a lender for a cooperating borrower is not negative,
/// a tracker that sees a peer cooperate does not lower that peer's score,
/// and it leaves the scores of all other peers as they are.
///
/// With a negative payoff the score falls instead: the tracker books what
/// lending cost it.
pub proof fn lemma_cooperation_keeps_score(ledger: TrackerModel, peer: usize, params: GameParams)
    requires
        params.lender_coop_payout >= 0,
        ledger.can_credit(peer, params.lender_payout(true)),
    ensures
        ledger.credited(peer, params.lender_payout(true)).score_of(peer) >= ledger.score_of(peer),
        forall|other: usize|
            other != peer ==> ledger.credited(peer, params.lender_payout(true)).score_of(other)
                == #[trigger] ledger.score_of(other),
{
}

/// A tracker turns down a peer for whom it has recorded a negative score,
/// optimistic or not. The encounter can then end in one way only, and it
/// leaves both agents, and so the energy of the borrower, as they were.
pub proof fn lemma_negative_score_is_rejected(
    lender: AgentModel,
    borrower: AgentModel,
    outcome: Outcome,
    params: GameParams,
)
    requires
        lender.strategy matches StrategyModel::Reputation(ledger)
            && ledger.scores.contains_key(borrower.id) && ledger.scores[borrower.id] < 0,
        possible(lender, borrower, outcome),
    ensures
        outcome == Outcome::Rejected,
        borrower_after(borrower, lender.id, outcome, params) == borrower,
        lender_after(lender, borrower.id, outcome, params) == lender,
{
}

/// In one encounter the energies move by the payoffs and by nothing else:
/// not at all where the request was rejected, by the two payoffs for
/// cooperation where the borrower cooperated, by the two payoffs for
/// defection where it defected.
pub proof fn lemma_energy_moves_by_payoffs(
    lender: AgentModel,
    borrower: AgentModel,
    outcome: Outcome,
    params: GameParams,
)
    requires
        outcome_fits(lender, borrower, outcome, params),
    ensures
        outcome == Outcome::Rejected ==> {
            &&& lender_after(lender, borrower.id, outcome, params).energy == lender.energy
            &&& borrower_after(borrower, lender.id, outcome, params).energy == borrower.energy
        },
        outcome == Outcome::Cooperated ==> {
            &&& lender_after(lender, borrower.id, outcome, params).energy == lender.energy
                + params.lender_coop_payout
            &&& borrower_after(borrower, lender.id, outcome, params).energy == borrower.energy
                + params.borrower_coop_payout
        },
        outcome == Outcome::Defected ==> {
            &&& lender_after(lender, borrower.id, outcome, params).energy == lender.energy
                + params.lender_defect_payout
            &&& borrower_after(borrower, lender.id, outcome, params).energy == borrower.energy
                + params.borrower_defect_payout
        },
        lender_after(lender, borrower.id, outcome, params).id == lender.id,
        borrower_after(borrower, lender.id, outcome, params).id == borrower.id,
{
}

/// Whether `kept` picks the agents at increasing places of `agents`, as
/// `places` says.
pub open spec fn picks(kept: Seq<AgentModel>, agents: Seq<AgentModel>, places: Seq<int>) -> bool {
    &&& places.len() == kept.len()
    &&& forall|i: int|
        0 <= i < kept.len() ==> 0 <= (#[trigger] places[i]) < agents.len() && kept[i]
            == agents[places[i]]
    &&& forall|i: int, j: int|
        0 <= i < j < kept.len() ==> (#[trigger] places[i]) < (#[trigger] places[j])
}

/// Those who stay when a round ends are the agents with energy left, in
/// their order: an agent with energy of exactly zero, or less, leaves, and
/// an agent with any energy above zero stays.
pub proof fn lemma_survivors_have_energy(agents: Seq<AgentModel>) -> (places: Seq<int>)
    ensures
        picks(survivors(agents), agents, places),
        forall|i: int| 0 <= i < survivors(agents).len() ==> (#[trigger] survivors(agents)[i]).energy > 0,
        forall|k: int|
            0 <= k < agents.len() ==> ((#[trigger] agents[k]).energy > 0 <==> places.contains(k)),
    decreases agents.len(),
{
    if agents.len() == 0 {
        Seq::empty()
    } else {
        let earlier = lemma_survivors_have_energy(agents.drop_last());
        let last = agents.len() - 1;
        if agents.last().alive() {
            let places = earlier.push(last);
            assert forall|k: int| 0 <= k < agents.len() implies ((#[trigger] agents[k]).energy > 0
                <==> places.contains(k)) by {
                if k < last {
                    assert(agents.drop_last()[k] == agents[k]);
                    if earlier.contains(k) {
                        let i = choose|i: int| 0 <= i < earlier.len() && earlier[i] == k;
                        assert(places[i] == k);
                    }
                    if places.contains(k) {
                        let i = choose|i: int| 0 <= i < places.len() && places[i] == k;
                        assert(earlier[i] == k);
                    }
                } else {
                    assert(places[places.len() - 1] == k);
                }
            }
            places
        } else {
            assert forall|k: int| 0 <= k < agents.len() implies ((#[trigger] agents[k]).energy > 0
                <==> earlier.contains(k)) by {
                if k < last {
                    assert(agents.drop_last()[k] == agents[k]);
                } else if earlier.contains(k) {
                    let i = choose|i: int| 0 <= i < earlier.len() && earlier[i] == k;
                    assert(earlier[i] < agents.drop_last().len());
                }
            }
            earlier
        }
    }
}

} // verus!
