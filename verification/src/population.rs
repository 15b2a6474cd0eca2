//! Building a population from a roster, and removing the agents that have
//! run out of energy.

use crate::agent::{Agent, AgentModel};
use crate::params::INITIAL_ENERGY;
use crate::random::{RandomModel, RandomStrategy};
use crate::report::models;
use crate::reputation::{ReputationTracker, TrackerModel};
use crate::strategy::{Strategy, StrategyModel};
use vstd::prelude::*;

verus! {

/// A description of a strategy, from which any number of fresh strategies
/// of that kind can be made.
pub enum StrategyKind {
    /// A reputation tracker that has met nobody.
    Reputation { optimistic: bool },
    /// A randomized strategy with the given probabilities, in parts out of
    /// `PROBABILITY_SCALE`, and label.
    Random { accept_prob: u32, coop_prob: u32, label: String },
}

/// One entry of a roster: a kind of strategy, and how many agents follow it.
pub type AgentDefinition = (StrategyKind, usize);

impl StrategyKind {
    /// What a fresh strategy of this kind is.
    pub open spec fn model(self) -> StrategyModel {
        match self {
            StrategyKind::Reputation { optimistic } => StrategyModel::Reputation(
                TrackerModel::fresh(optimistic),
            ),
            StrategyKind::Random { accept_prob, coop_prob, label } => StrategyModel::Random(
                RandomModel { accept_prob, coop_prob, label: label@ },
            ),
        }
    }

    /// Makes a fresh strategy of this kind. A randomized one gets a
    /// generator of its own, built from `seed`.
    pub fn build(&self, seed: u64) -> (s: Strategy)
        ensures
            s@ == self.model(),
    {
        match self {
            StrategyKind::Reputation { optimistic } => Strategy::Reputation(
                ReputationTracker::new(*optimistic),
            ),
            StrategyKind::Random { accept_prob, coop_prob, label } => Strategy::Random(
                RandomStrategy::new(*accept_prob, *coop_prob, label.clone(), seed),
            ),
        }
    }
}

/// The number of agents that a roster asks for.
pub open spec fn roster_size(roster: Seq<AgentDefinition>) -> nat
    decreases roster.len(),
{
    if roster.len() == 0 {
        0
    } else {
        roster_size(roster.drop_last()) + roster.last().1 as nat
    }
}

/// The fresh agent that follows a strategy of `kind` under the identity
/// `id`.
pub open spec fn recruit(kind: StrategyKind, id: int) -> AgentModel {
    AgentModel { id: id as usize, energy: INITIAL_ENERGY, strategy: kind.model() }
}

/// The population that a roster asks for: the agents of the first entry,
/// then those of the second, and so on, each with the initial energy, and
/// numbered in that order from zero.
pub open spec fn roster_agents(roster: Seq<AgentDefinition>) -> Seq<AgentModel>
    decreases roster.len(),
{
    if roster.len() == 0 {
        Seq::empty()
    } else {
        let before = roster_agents(roster.drop_last());
        before + Seq::new(
            roster.last().1 as nat,
            |i: int| recruit(roster.last().0, before.len() + i),
        )
    }
}

/// Whether the energy of every agent, and every score its strategy keeps,
/// lies from `-limit - 1` up to `limit`.
pub open spec fn population_bounded(agents: Seq<AgentModel>, limit: int) -> bool {
    forall|i: int| 0 <= i < agents.len() ==> (#[trigger] agents[i]).bounded(limit)
}

/// Whether the energy of every agent, and every score its strategy keeps,
/// lies from `-limit - 1` up to `limit`.
pub fn all_within(agents: &Vec<Agent>, limit: i64) -> (ok: bool)
    requires
        limit >= 0,
    ensures
        ok == population_bounded(models(agents@), limit as int),
{
    let mut i: usize = 0;
    while i < agents.len()
        invariant
            i <= agents.len(),
            limit >= 0,
            forall|k: int| 0 <= k < i ==> (#[trigger] models(agents@)[k]).bounded(limit as int),
        decreases agents.len() - i,
    {
        if !agents[i].within(limit) {
            proof {
                assert(models(agents@)[i as int] == agents[i as int]@);
            }
            return false;
        }
        proof {
            assert(models(agents@)[i as int] == agents[i as int]@);
        }
        i = i + 1;
    }
    true
}

/// A roster asks for as many agents as its entries say together. Each has
/// its place in the population as its identity, and its energy, the initial
/// one, is all that any limit has to hold.
pub proof fn lemma_roster_agents(roster: Seq<AgentDefinition>)
    requires
        roster_size(roster) <= usize::MAX,
    ensures
        roster_agents(roster).len() == roster_size(roster),
        forall|k: int|
            0 <= k < roster_agents(roster).len() ==> (#[trigger] roster_agents(roster)[k]).id == k,
        population_bounded(roster_agents(roster), INITIAL_ENERGY as int),
    decreases roster.len(),
{
    if roster.len() > 0 {
        lemma_roster_agents(roster.drop_last());
    }
}

/// The number of agents that a roster asks for, or `None` where they are
/// more than a population can hold.
pub fn roster_total(agent_definitions: &Vec<AgentDefinition>) -> (total: Option<usize>)
    ensures
        match total {
            Some(n) => n == roster_size(agent_definitions@),
            None => roster_size(agent_definitions@) > usize::MAX,
        },
{
    let mut total: usize = 0;
    let mut entry: usize = 0;
    while entry < agent_definitions.len()
        invariant
            entry <= agent_definitions.len(),
            total == roster_size(agent_definitions@.take(entry as int)),
        decreases agent_definitions.len() - entry,
    {
        proof {
            assert(agent_definitions@.take(entry + 1).drop_last() =~= agent_definitions@.take(
                entry as int,
            ));
            lemma_roster_size_grows(agent_definitions@, entry + 1);
        }
        match total.checked_add(agent_definitions[entry].1) {
            Some(sum) => {
                total = sum;
            },
            None => {
                return None;
            },
        }
        entry = entry + 1;
    }
    proof {
        assert(agent_definitions@.take(entry as int) =~= agent_definitions@);
    }
    Some(total)
}

/// Builds the population that `agent_definitions` asks for. Every agent
/// starts with `INITIAL_ENERGY`, and the agents are numbered from zero in
/// the order of the roster, so that no two share an identity. The
/// generator of each randomized agent is built from `seed` and the agent's
/// identity.
pub fn gen_agents(agent_definitions: Vec<AgentDefinition>, seed: u64) -> (agents: Vec<Agent>)
    requires
        roster_size(agent_definitions@) <= usize::MAX,
    ensures
        models(agents@) == roster_agents(agent_definitions@),
        agents.len() == roster_size(agent_definitions@),
        forall|k: int| 0 <= k < agents.len() ==> (#[trigger] agents[k])@.id == k,
        population_bounded(models(agents@), INITIAL_ENERGY as int),
{
    let mut agents: Vec<Agent> = Vec::new();
    let mut entry: usize = 0;
    while entry < agent_definitions.len()
        invariant
            entry <= agent_definitions.len(),
            roster_size(agent_definitions@) <= usize::MAX,
            models(agents@) == roster_agents(agent_definitions@.take(entry as int)),
            agents.len() == roster_size(agent_definitions@.take(entry as int)),
        decreases agent_definitions.len() - entry,
    {
        let ghost done = agent_definitions@.take(entry as int);
        let ghost next = agent_definitions@.take(entry + 1);
        let ghost before = roster_agents(done);
        proof {
            assert(next.drop_last() =~= done);
            assert(next.last() == agent_definitions@[entry as int]);
            lemma_roster_size_grows(agent_definitions@, entry + 1);
        }
        let count: usize = agent_definitions[entry].1;
        let mut i: usize = 0;
        while i < count
            invariant
                i <= count,
                entry < agent_definitions.len(),
                count == agent_definitions@[entry as int].1,
                before.len() + count <= usize::MAX,
                agents.len() == before.len() + i,
                models(agents@) == before + Seq::new(
                    i as nat,
                    |n: int| recruit(agent_definitions@[entry as int].0, before.len() + n),
                ),
            decreases count - i,
        {
            let id: usize = agents.len();
            let strategy = agent_definitions[entry].0.build(seed.wrapping_add(id as u64));
            let ghost was = models(agents@);
            agents.push(Agent::new(id, INITIAL_ENERGY, strategy));
            proof {
                assert(models(agents@) =~= was.push(
                    recruit(agent_definitions@[entry as int].0, before.len() + i),
                ));
            }
            i = i + 1;
        }
        entry = entry + 1;
    }
    proof {
        assert(agent_definitions@.take(entry as int) =~= agent_definitions@);
        lemma_roster_agents(agent_definitions@);
        assert forall|k: int| 0 <= k < agents.len() implies (#[trigger] agents[k])@.id == k by {
            assert(models(agents@)[k] == agents[k]@);
        }
    }
    agents
}

/// The first entries of a roster ask for no more agents than all of it.
pub proof fn lemma_roster_size_grows(roster: Seq<AgentDefinition>, n: int)
    requires
        0 <= n <= roster.len(),
    ensures
        roster_size(roster.take(n)) <= roster_size(roster),
    decreases roster.len() - n,
{
    if n < roster.len() {
        assert(roster.take(n + 1).drop_last() =~= roster.take(n));
        lemma_roster_size_grows(roster, n + 1);
    } else {
        assert(roster.take(n) =~= roster);
    }
}

/// The agents of a population that stay when a round ends, in their order:
/// those with energy left.
pub open spec fn survivors(agents: Seq<AgentModel>) -> Seq<AgentModel>
    decreases agents.len(),
{
    if agents.len() == 0 {
        Seq::empty()
    } else if agents.last().alive() {
        survivors(agents.drop_last()).push(agents.last())
    } else {
        survivors(agents.drop_last())
    }
}

/// Removes from the population every agent whose energy is zero or less.
/// The others stay, in their order.
pub fn cull(agents: &mut Vec<Agent>)
    ensures
        models(final(agents)@) == survivors(models(old(agents)@)),
{
    let ghost all = models(agents@);
    let mut stack: Vec<Agent> = Vec::new();
    while agents.len() > 0
        invariant
            stack.len() + agents.len() == all.len(),
            models(agents@) == all.take(agents.len() as int),
            forall|k: int|
                0 <= k < stack.len() ==> (#[trigger] stack[k])@ == all[all.len() - 1 - k],
        decreases agents.len(),
    {
        let ghost was = models(agents@);
        let last = agents.pop().unwrap();
        proof {
            assert(last@ == was[was.len() - 1]);
            assert(models(agents@) =~= all.take(agents.len() as int));
        }
        stack.push(last);
    }
    while stack.len() > 0
        invariant
            stack.len() <= all.len(),
            models(agents@) == survivors(all.take(all.len() - stack.len())),
            forall|k: int|
                0 <= k < stack.len() ==> (#[trigger] stack[k])@ == all[all.len() - 1 - k],
        decreases stack.len(),
    {
        let ghost done = all.take(all.len() - stack.len());
        let ghost was = models(agents@);
        let next = stack.pop().unwrap();
        proof {
            let grown = all.take(all.len() - stack.len());
            assert(grown.drop_last() =~= done);
            assert(grown.last() == next@);
        }
        if next.is_alive() {
            agents.push(next);
            proof {
                assert(models(agents@) =~= was.push(next@));
            }
        }
    }
    proof {
        assert(all.take(all.len() as int) =~= all);
    }
}

} // verus!
