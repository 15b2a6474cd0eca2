//! Identities: no two agents of a population share one, and no round
//! changes that.

use crate::agent::AgentModel;
use crate::laws::{lemma_survivors_have_energy, picks};
use crate::params::{GameParams, Outcome};
use crate::population::survivors;
use crate::simulation::{
    after_hosts, after_rounds, after_visits, exchange, hosts_possible, meet, rounds_possible,
    Exchange,
};
use vstd::prelude::*;

verus! {

/// Whether no two agents share an identity.
pub open spec fn distinct_identities(agents: Seq<AgentModel>) -> bool {
    forall|i: int, j: int|
        0 <= i < j < agents.len() ==> (#[trigger] agents[i]).id != (#[trigger] agents[j]).id
}

/// Whether two populations hold agents of the same identities at the same
/// places.
pub open spec fn same_identities(a: Seq<AgentModel>, b: Seq<AgentModel>) -> bool {
    &&& a.len() == b.len()
    &&& forall|i: int| 0 <= i < a.len() ==> (#[trigger] a[i]).id == b[i].id
}

/// Whether every identity found among `later` is found among `earlier`.
pub open spec fn no_new_identities(earlier: Seq<AgentModel>, later: Seq<AgentModel>) -> bool {
    forall|i: int|
        0 <= i < later.len() ==> exists|k: int|
            0 <= k < earlier.len() && (#[trigger] earlier[k]).id == (#[trigger] later[i]).id
}

/// Agents that are numbered by their places have distinct identities.
pub proof fn lemma_numbered_are_distinct(agents: Seq<AgentModel>)
    requires
        forall|k: int| 0 <= k < agents.len() ==> (#[trigger] agents[k]).id == k,
    ensures
        distinct_identities(agents),
{
}

/// An encounter leaves every agent at its place with its identity.
pub proof fn lemma_meet_keeps_identities(
    agents: Seq<AgentModel>,
    lender: int,
    borrower: int,
    outcome: Outcome,
    params: GameParams,
)
    requires
        0 <= lender < agents.len(),
        0 <= borrower < agents.len(),
    ensures
        same_identities(agents, meet(agents, lender, borrower, outcome, params)),
{
}

/// The exchanges of one host leave every agent at its place with its
/// identity.
pub proof fn lemma_visits_keep_identities(
    agents: Seq<AgentModel>,
    host: int,
    row: Seq<Exchange>,
    params: GameParams,
)
    requires
        0 <= host,
        host + row.len() < agents.len(),
    ensures
        same_identities(agents, after_visits(agents, host, row, params)),
    decreases row.len(),
{
    if row.len() > 0 {
        lemma_visits_keep_identities(agents, host, row.drop_last(), params);
        let before = after_visits(agents, host, row.drop_last(), params);
        let guest = host + row.len();
        lemma_meet_keeps_identities(before, host, guest, row.last().0, params);
        let between = meet(before, host, guest, row.last().0, params);
        lemma_meet_keeps_identities(between, guest, host, row.last().1, params);
        let after = exchange(before, host, guest, row.last(), params);
        assert forall|i: int| 0 <= i < agents.len() implies (#[trigger] agents[i]).id
            == after[i].id by {
            assert(before[i].id == between[i].id);
        }
    }
}

/// The exchanges of a round leave every agent at its place with its
/// identity.
pub proof fn lemma_hosts_keep_identities(
    agents: Seq<AgentModel>,
    round: Seq<Seq<Exchange>>,
    params: GameParams,
)
    requires
        hosts_possible(agents, round, params),
        round.len() <= agents.len(),
    ensures
        same_identities(agents, after_hosts(agents, round, params)),
    decreases round.len(),
{
    if round.len() > 0 {
        lemma_hosts_keep_identities(agents, round.drop_last(), params);
        let before = after_hosts(agents, round.drop_last(), params);
        lemma_visits_keep_identities(before, round.len() - 1, round.last(), params);
        let after = after_hosts(agents, round, params);
        assert forall|i: int| 0 <= i < agents.len() implies (#[trigger] agents[i]).id
            == after[i].id by {
            assert(before[i].id == after[i].id);
        }
    }
}

/// Through any number of rounds the identities of a population stay
/// distinct, and none appears that was not there at the start: an agent
/// keeps its identity for as long as it lives, and the identity of an agent
/// that left is not given out again.
pub proof fn lemma_rounds_keep_identities(
    agents: Seq<AgentModel>,
    rounds: Seq<Seq<Seq<Exchange>>>,
    params: GameParams,
)
    requires
        distinct_identities(agents),
        rounds_possible(agents, rounds, params),
    ensures
        distinct_identities(after_rounds(agents, rounds, params)),
        no_new_identities(agents, after_rounds(agents, rounds, params)),
    decreases rounds.len(),
{
    if rounds.len() > 0 {
        lemma_rounds_keep_identities(agents, rounds.drop_last(), params);
        let entering = after_rounds(agents, rounds.drop_last(), params);
        lemma_hosts_keep_identities(entering, rounds.last(), params);
        let played = after_hosts(entering, rounds.last(), params);
        let places = lemma_survivors_have_energy(played);
        let left = survivors(played);
        assert(picks(left, played, places));
        assert forall|i: int, j: int| 0 <= i < j < left.len() implies (#[trigger] left[i]).id != (
        #[trigger] left[j]).id by {
            assert(places[i] < places[j]);
            assert(entering[places[i]].id == played[places[i]].id);
            assert(entering[places[j]].id == played[places[j]].id);
        }
        assert forall|i: int| 0 <= i < left.len() implies exists|k: int|
            0 <= k < agents.len() && (#[trigger] agents[k]).id == (#[trigger] left[i]).id by {
            let at = places[i];
            assert(entering[at].id == played[at].id);
            let k = choose|k: int|
                0 <= k < agents.len() && (#[trigger] agents[k]).id == (#[trigger] entering[at]).id;
            assert(agents[k].id == left[i].id);
        }
    } else {
        assert forall|i: int| 0 <= i < agents.len() implies exists|k: int|
            0 <= k < agents.len() && (#[trigger] agents[k]).id == (#[trigger] agents[i]).id by {
            assert(agents[i].id == agents[i].id);
        }
    }
}

} // verus!
