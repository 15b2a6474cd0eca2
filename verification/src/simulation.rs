//! The rounds of the game: every agent meets every other, twice, and those
//! who have run out of energy leave.
//!
//! What a population looks like after some rounds depends on what the
//! strategies answered along the way. The model therefore takes those
//! answers as given, as a record of outcomes, and says what population
//! results from them and which records the strategies allow.

use crate::agent::{
    borrower_after, encounter_fits, lemma_encounter_bounded, lender_after, possible, Agent,
    AgentModel,
};
use crate::params::{GameParams, Outcome};
use crate::population::{all_within, cull, population_bounded, survivors};
use crate::report::{is_report, models, report, StrategySummary};
use vstd::prelude::*;

verus! {

/// What happened between two agents in a round: the outcome with the first
/// as lender, then the outcome with the second as lender.
pub type Exchange = (Outcome, Outcome);

/// The population after the agent at `lender` met the agent at `borrower`
/// with `outcome`.
pub open spec fn meet(
    agents: Seq<AgentModel>,
    lender: int,
    borrower: int,
    outcome: Outcome,
    params: GameParams,
) -> Seq<AgentModel> {
    agents.update(
        lender,
        lender_after(agents[lender], agents[borrower].id, outcome, params),
    ).update(borrower, borrower_after(agents[borrower], agents[lender].id, outcome, params))
}

/// The population after the agents at `first` and `second` met twice: with
/// `first` as lender, then with `second` as lender.
pub open spec fn exchange(
    agents: Seq<AgentModel>,
    first: int,
    second: int,
    outcomes: Exchange,
    params: GameParams,
) -> Seq<AgentModel> {
    meet(meet(agents, first, second, outcomes.0, params), second, first, outcomes.1, params)
}

/// Whether the strategies of the agents at `first` and `second` allow their
/// two encounters to end in `outcomes`.
pub open spec fn exchange_possible(
    agents: Seq<AgentModel>,
    first: int,
    second: int,
    outcomes: Exchange,
    params: GameParams,
) -> bool {
    let between = meet(agents, first, second, outcomes.0, params);
    &&& possible(agents[first], agents[second], outcomes.0)
    &&& possible(between[second], between[first], outcomes.1)
}

/// The population after the agent at `host` exchanged with the agents that
/// follow it, one for each entry of `row`, in their order.
pub open spec fn after_visits(
    agents: Seq<AgentModel>,
    host: int,
    row: Seq<Exchange>,
    params: GameParams,
) -> Seq<AgentModel>
    decreases row.len(),
{
    if row.len() == 0 {
        agents
    } else {
        exchange(
            after_visits(agents, host, row.drop_last(), params),
            host,
            host + row.len(),
            row.last(),
            params,
        )
    }
}

/// Whether the strategies allow the exchanges of `row`, each in the
/// population that the exchanges before it left.
pub open spec fn visits_possible(
    agents: Seq<AgentModel>,
    host: int,
    row: Seq<Exchange>,
    params: GameParams,
) -> bool
    decreases row.len(),
{
    if row.len() == 0 {
        true
    } else {
        &&& visits_possible(agents, host, row.drop_last(), params)
        &&& exchange_possible(
            after_visits(agents, host, row.drop_last(), params),
            host,
            host + row.len(),
            row.last(),
            params,
        )
    }
}

/// The population after the first agents, one for each row of `round`, have
/// each exchanged with the agents that follow them.
pub open spec fn after_hosts(
    agents: Seq<AgentModel>,
    round: Seq<Seq<Exchange>>,
    params: GameParams,
) -> Seq<AgentModel>
    decreases round.len(),
{
    if round.len() == 0 {
        agents
    } else {
        after_visits(
            after_hosts(agents, round.drop_last(), params),
            round.len() - 1,
            round.last(),
            params,
        )
    }
}

/// Whether each row of `round` holds one exchange for every agent that
/// follows its host, and the strategies allow them all.
pub open spec fn hosts_possible(
    agents: Seq<AgentModel>,
    round: Seq<Seq<Exchange>>,
    params: GameParams,
) -> bool
    decreases round.len(),
{
    if round.len() == 0 {
        true
    } else {
        &&& hosts_possible(agents, round.drop_last(), params)
        &&& round.last().len() == agents.len() - round.len()
        &&& visits_possible(
            after_hosts(agents, round.drop_last(), params),
            round.len() - 1,
            round.last(),
            params,
        )
    }
}

/// The number of hosts in a round of a population of `size`: every agent
/// but the last.
pub open spec fn hosts_of(size: int) -> int {
    if size > 0 {
        size - 1
    } else {
        0
    }
}

/// Whether `round` records a whole round of `agents`: every pair exchanged
/// once, in the order of the population, as the strategies allow.
pub open spec fn round_possible(
    agents: Seq<AgentModel>,
    round: Seq<Seq<Exchange>>,
    params: GameParams,
) -> bool {
    &&& round.len() == hosts_of(agents.len() as int)
    &&& hosts_possible(agents, round, params)
}

/// The population after the round that `round` records: all exchanges, and
/// then the departure of those without energy.
pub open spec fn after_round(
    agents: Seq<AgentModel>,
    round: Seq<Seq<Exchange>>,
    params: GameParams,
) -> Seq<AgentModel> {
    survivors(after_hosts(agents, round, params))
}

/// The population after the rounds that `rounds` records.
pub open spec fn after_rounds(
    agents: Seq<AgentModel>,
    rounds: Seq<Seq<Seq<Exchange>>>,
    params: GameParams,
) -> Seq<AgentModel>
    decreases rounds.len(),
{
    if rounds.len() == 0 {
        agents
    } else {
        after_round(after_rounds(agents, rounds.drop_last(), params), rounds.last(), params)
    }
}

/// Whether `rounds` records whole rounds, each of the population that the
/// rounds before it left.
pub open spec fn rounds_possible(
    agents: Seq<AgentModel>,
    rounds: Seq<Seq<Seq<Exchange>>>,
    params: GameParams,
) -> bool
    decreases rounds.len(),
{
    if rounds.len() == 0 {
        true
    } else {
        &&& rounds_possible(agents, rounds.drop_last(), params)
        &&& round_possible(
            after_rounds(agents, rounds.drop_last(), params),
            rounds.last(),
            params,
        )
    }
}

/// The number of encounters that each agent of a population of `size`
/// takes part in during a round: two with every other agent.
pub open spec fn meetings_of(size: int) -> int {
    if size > 0 {
        2 * (size - 1)
    } else {
        0
    }
}

/// Plays one encounter between two agents of a population, given by their
/// places: the agent at `lender` decides on the request of the agent at
/// `borrower`, and so on, as in `encounter`.
pub fn encounter_between(
    agents: &mut Vec<Agent>,
    lender: usize,
    borrower: usize,
    params: &GameParams,
) -> (outcome: Outcome)
    requires
        lender < old(agents).len(),
        borrower < old(agents).len(),
        lender != borrower,
        encounter_fits(old(agents)[lender as int]@, old(agents)[borrower as int]@, *params),
    ensures
        possible(old(agents)[lender as int]@, old(agents)[borrower as int]@, outcome),
        models(final(agents)@) == meet(
            models(old(agents)@),
            lender as int,
            borrower as int,
            outcome,
            *params,
        ),
        final(agents).len() == old(agents).len(),
{
    let ghost before = models(agents@);
    let lender_id = agents[lender].id();
    let borrower_id = agents[borrower].id();
    let accept = agents[lender].decide_request(borrower_id);
    if accept {
        let coop = agents[borrower].borrow_from(lender_id, params);
        agents[lender].settle_loan(borrower_id, coop, params);
        let outcome = if coop {
            Outcome::Cooperated
        } else {
            Outcome::Defected
        };
        proof {
            assert(models(agents@) =~= meet(
                before,
                lender as int,
                borrower as int,
                outcome,
                *params,
            ));
        }
        outcome
    } else {
        agents[borrower].take_rejection(lender_id);
        proof {
            assert(models(agents@) =~= meet(
                before,
                lender as int,
                borrower as int,
                Outcome::Rejected,
                *params,
            ));
        }
        Outcome::Rejected
    }
}

/// The room that `rounds` rounds in a population of `size` can use up of
/// an energy or a score: the largest payoff for every encounter that one
/// agent takes part in, counted as if nobody left.
pub open spec fn budget(size: int, rounds: nat, params: GameParams) -> int {
    rounds * meetings_of(size) * params.magnitude()
}

/// Whether a round of `agents` is sure to stay within the range of an energy
/// and of a score: every energy and score leaves room for the largest
/// payoff in each encounter that its agent takes part in.
pub open spec fn round_fits(agents: Seq<AgentModel>, params: GameParams) -> bool {
    population_bounded(agents, i64::MAX - budget(agents.len() as int, 1, params))
}

/// Whether `rounds` rounds that start from `agents` are sure to stay within
/// the range of an energy and of a score: every energy and score leaves
/// room for the largest payoff in each encounter that its agent takes part
/// in during those rounds, if nobody leaves.
pub open spec fn simulation_fits(agents: Seq<AgentModel>, rounds: nat, params: GameParams)
    -> bool {
    population_bounded(agents, i64::MAX - budget(agents.len() as int, rounds, params))
}

/// The number of rounds that a count of `rounds` asks for: none where the
/// count is negative.
pub open spec fn rounds_asked(rounds: i32) -> nat {
    if rounds > 0 {
        rounds as nat
    } else {
        0
    }
}

/// The limit within which a population of `size` has to lie for `rounds`
/// rounds to be sure to stay within range, or `None` where those rounds
/// could use up more room than there is.
pub fn room_for(size: usize, rounds: i32, params: &GameParams) -> (limit: Option<i64>)
    ensures
        match limit {
            Some(l) => l >= 0 && l == i64::MAX - budget(
                size as int,
                rounds_asked(rounds),
                *params,
            ),
            None => budget(size as int, rounds_asked(rounds), *params) > i64::MAX,
        },
{
    let step: u128 = params.largest_payoff() as u128;
    let ghost asked = rounds_asked(rounds) as int;
    let ghost each = meetings_of(size as int);
    if rounds <= 0 || size <= 1 || step == 0 {
        proof {
            assert(asked * each * step == 0) by (nonlinear_arith)
                requires
                    asked == 0 || each == 0 || step == 0,
            ;
        }
        return Some(i64::MAX);
    }
    let meetings: u128 = 2 * (size as u128 - 1);
    let most: u128 = i64::MAX as u128;
    proof {
        assert(asked * meetings <= 0x7fff_ffff * 0x1_ffff_ffff_ffff_fffc) by (nonlinear_arith)
            requires
                0 <= asked <= 0x7fff_ffff,
                0 <= meetings <= 0x1_ffff_ffff_ffff_fffc,
        ;
        assert(asked * meetings * step >= asked * meetings) by (nonlinear_arith)
            requires
                step >= 1,
                asked * meetings >= 0,
        ;
    }
    let in_all: u128 = (rounds as u128) * meetings;
    if in_all > most {
        return None;
    }
    proof {
        assert(in_all * step <= 0x7fff_ffff_ffff_ffff * 0x8000_0000_0000_0000)
            by (nonlinear_arith)
            requires
                0 <= in_all <= 0x7fff_ffff_ffff_ffff,
                0 <= step <= 0x8000_0000_0000_0000,
        ;
    }
    let used: u128 = in_all * step;
    if used > most {
        return None;
    }
    Some((most - used) as i64)
}

/// A population that lies within one limit lies within every larger one.
pub proof fn lemma_bounded_widens(agents: Seq<AgentModel>, limit: int, wider: int)
    requires
        population_bounded(agents, limit),
        limit <= wider,
    ensures
        population_bounded(agents, wider),
{
    assert forall|i: int| 0 <= i < agents.len() implies (#[trigger] agents[i]).bounded(wider) by {
        assert(agents[i].bounded(limit));
    }
}

/// Those who stay are no more than those who were there, and lie within the
/// same limit.
pub proof fn lemma_survivors_bounded(agents: Seq<AgentModel>, limit: int)
    requires
        population_bounded(agents, limit),
    ensures
        population_bounded(survivors(agents), limit),
        survivors(agents).len() <= agents.len(),
    decreases agents.len(),
{
    if agents.len() > 0 {
        assert forall|i: int| 0 <= i < agents.drop_last().len() implies (
        #[trigger] agents.drop_last()[i]).bounded(limit) by {
            assert(agents[i].bounded(limit));
        }
        lemma_survivors_bounded(agents.drop_last(), limit);
        assert(agents.last().bounded(limit));
    }
}

/// The number of encounters that the agent at `place` has taken part in
/// when the first `hosts` agents of a population of `size` have each
/// exchanged with all that follow them, and the next has exchanged with the
/// `guests` agents that follow it.
spec fn met(place: int, hosts: int, guests: int, size: int) -> int {
    if place < hosts {
        2 * (size - 1)
    } else if place == hosts {
        2 * (hosts + guests)
    } else if place <= hosts + guests {
        2 * (hosts + 1)
    } else {
        2 * hosts
    }
}

/// The limit that `count` payoffs of size `step` leave of `base`.
spec fn reach(base: int, count: int, step: int) -> int {
    base + count * step
}

/// Whether each agent lies within `base` and one payoff of the largest size
/// for every encounter it has taken part in so far.
spec fn kept_within(
    agents: Seq<AgentModel>,
    base: int,
    hosts: int,
    guests: int,
    step: int,
) -> bool {
    forall|i: int|
        0 <= i < agents.len() ==> (#[trigger] agents[i]).bounded(
            reach(base, met(i, hosts, guests, agents.len() as int), step),
        )
}

/// More payoffs reach further, each by its size.
proof fn lemma_reach(base: int, count: int, more: int, step: int)
    requires
        count <= more,
        step >= 0,
    ensures
        reach(base, count, step) <= reach(base, more, step),
        reach(base, count + 1, step) == reach(base, count, step) + step,
        reach(base, 0, step) == base,
{
    assert(count * step <= more * step) by (nonlinear_arith)
        requires
            count <= more,
            step >= 0,
    ;
    assert((count + 1) * step == count * step + step) by (nonlinear_arith);
    assert(0 * step == 0) by (nonlinear_arith);
}

/// Lets the agent at `host` exchange with every agent that follows it, in
/// their order. Returns the record of the exchanges.
fn host_row(
    agents: &mut Vec<Agent>,
    host: usize,
    params: &GameParams,
    Ghost(base): Ghost<int>,
) -> (row: Ghost<Seq<Exchange>>)
    requires
        host + 1 < old(agents).len(),
        kept_within(models(old(agents)@), base, host as int, 0, params.magnitude()),
        reach(base, meetings_of(old(agents).len() as int), params.magnitude()) <= i64::MAX,
    ensures
        final(agents).len() == old(agents).len(),
        row@.len() == old(agents).len() - 1 - host,
        visits_possible(models(old(agents)@), host as int, row@, *params),
        models(final(agents)@) == after_visits(models(old(agents)@), host as int, row@, *params),
        kept_within(models(final(agents)@), base, host + 1, 0, params.magnitude()),
{
    let ghost start = models(agents@);
    let ghost step = params.magnitude();
    let ghost mut row: Seq<Exchange> = Seq::empty();
    let size: usize = agents.len();
    let mut guest: usize = host + 1;
    while guest < size
        invariant
            host < guest <= size,
            agents.len() == size,
            start.len() == size,
            step == params.magnitude(),
            row.len() == guest - host - 1,
            visits_possible(start, host as int, row, *params),
            models(agents@) == after_visits(start, host as int, row, *params),
            kept_within(models(agents@), base, host as int, row.len() as int, step),
            reach(base, meetings_of(size as int), step) <= i64::MAX,
        decreases size - guest,
    {
        let ghost before = models(agents@);
        let ghost done = row.len() as int;
        let ghost host_limit = reach(base, met(host as int, host as int, done, size as int), step);
        let ghost guest_limit = reach(base, met(guest as int, host as int, done, size as int), step);
        proof {
            assert(before[host as int].bounded(host_limit));
            assert(before[guest as int].bounded(guest_limit));
            lemma_reach(base, 2 * (host + done), 2 * (size - 1) - 2, step);
            lemma_reach(base, 2 * (host + done) + 1, 2 * (size - 1) - 1, step);
            lemma_reach(base, 2 * host, 2 * (size - 1) - 2, step);
            lemma_reach(base, 2 * host + 1, 2 * (size - 1) - 1, step);
            lemma_reach(base, 2 * (size - 1) - 2, 2 * (size - 1), step);
            lemma_reach(base, 2 * (size - 1) - 1, 2 * (size - 1), step);
            lemma_encounter_bounded(
                before[host as int],
                before[guest as int],
                Outcome::Rejected,
                *params,
                host_limit,
                guest_limit,
            );
        }
        let first = encounter_between(agents, host, guest, params);
        let ghost between = models(agents@);
        proof {
            lemma_encounter_bounded(
                before[host as int],
                before[guest as int],
                first,
                *params,
                host_limit,
                guest_limit,
            );
            lemma_encounter_bounded(
                between[guest as int],
                between[host as int],
                Outcome::Rejected,
                *params,
                guest_limit + step,
                host_limit + step,
            );
        }
        let second = encounter_between(agents, guest, host, params);
        proof {
            lemma_encounter_bounded(
                between[guest as int],
                between[host as int],
                second,
                *params,
                guest_limit + step,
                host_limit + step,
            );
            let grown = row.push((first, second));
            assert(grown.drop_last() =~= row);
            let after = models(agents@);
            assert forall|i: int| 0 <= i < after.len() implies (#[trigger] after[i]).bounded(
                reach(base, met(i, host as int, done + 1, size as int), step),
            ) by {
                if i != host && i != guest {
                    assert(before[i].bounded(
                        reach(base, met(i, host as int, done, size as int), step),
                    ));
                    assert(after[i] == before[i]);
                }
            }
            row = grown;
        }
        guest = guest + 1;
    }
    proof {
        let after = models(agents@);
        assert forall|i: int| 0 <= i < after.len() implies (#[trigger] after[i]).bounded(
            reach(base, met(i, host + 1, 0, size as int), step),
        ) by {
            assert(after[i].bounded(
                reach(base, met(i, host as int, row.len() as int, size as int), step),
            ));
        }
    }
    Ghost(row)
}

/// Plays all exchanges of a round: every agent but the last hosts, in the
/// order of the population. Returns the record of the exchanges.
fn all_exchanges(agents: &mut Vec<Agent>, params: &GameParams, Ghost(base): Ghost<int>) -> (round:
    Ghost<Seq<Seq<Exchange>>>)
    requires
        population_bounded(models(old(agents)@), base),
        reach(base, meetings_of(old(agents).len() as int), params.magnitude()) <= i64::MAX,
    ensures
        final(agents).len() == old(agents).len(),
        round_possible(models(old(agents)@), round@, *params),
        models(final(agents)@) == after_hosts(models(old(agents)@), round@, *params),
        population_bounded(
            models(final(agents)@),
            reach(base, meetings_of(old(agents).len() as int), params.magnitude()),
        ),
{
    let ghost start = models(agents@);
    let ghost step = params.magnitude();
    let ghost mut round: Seq<Seq<Exchange>> = Seq::empty();
    let size: usize = agents.len();
    let mut host: usize = 0;
    proof {
        lemma_reach(base, 0, 0, step);
        assert forall|i: int| 0 <= i < start.len() implies (#[trigger] start[i]).bounded(
            reach(base, met(i, 0, 0, size as int), step),
        ) by {
            assert(start[i].bounded(base));
        }
    }
    while host + 1 < size
        invariant
            host <= hosts_of(size as int),
            agents.len() == size,
            start.len() == size,
            step == params.magnitude(),
            round.len() == host,
            hosts_possible(start, round, *params),
            models(agents@) == after_hosts(start, round, *params),
            kept_within(models(agents@), base, host as int, 0, step),
            reach(base, meetings_of(size as int), step) <= i64::MAX,
        decreases size - host,
    {
        let row = host_row(agents, host, params, Ghost(base));
        proof {
            let grown = round.push(row@);
            assert(grown.drop_last() =~= round);
            round = grown;
        }
        host = host + 1;
    }
    proof {
        let after = models(agents@);
        let end = reach(base, meetings_of(size as int), step);
        lemma_reach(base, 0, meetings_of(size as int), step);
        assert forall|i: int| 0 <= i < after.len() implies (#[trigger] after[i]).bounded(end) by {
            assert(after[i].bounded(reach(base, met(i, host as int, 0, size as int), step)));
        }
    }
    Ghost(round)
}

/// Plays one round: every two agents exchange, in the order of the
/// population, each pair with the earlier agent as lender first; then every
/// agent whose energy is zero or less leaves.
pub fn play_round(agents: &mut Vec<Agent>, params: &GameParams)
    requires
        round_fits(models(old(agents)@), *params),
    ensures
        exists|round: Seq<Seq<Exchange>>|
            round_possible(models(old(agents)@), round, *params) && models(final(agents)@)
                == #[trigger] after_round(models(old(agents)@), round, *params),
        final(agents).len() <= old(agents).len(),
{
    let ghost start = models(agents@);
    let ghost each = meetings_of(agents.len() as int);
    let ghost base = i64::MAX - budget(agents.len() as int, 1, *params);
    proof {
        assert(1 * each * params.magnitude() == each * params.magnitude()) by (nonlinear_arith);
    }
    let round = all_exchanges(agents, params, Ghost(base));
    proof {
        lemma_survivors_bounded(models(agents@), i64::MAX as int);
    }
    cull(agents);
    proof {
        assert(models(agents@) == after_round(start, round@, *params));
    }
}

/// Whether `record` is the record of a run that led from `start` to `end`
/// and gave `reports`: its rounds are whole rounds that the strategies
/// allow, `end` is the population they leave, and there is one report for
/// each round, drawn up of the population that entered it.
pub open spec fn is_run(
    start: Seq<AgentModel>,
    record: Seq<Seq<Seq<Exchange>>>,
    params: GameParams,
    end: Seq<AgentModel>,
    reports: Seq<Vec<StrategySummary>>,
) -> bool {
    &&& rounds_possible(start, record, params)
    &&& end == after_rounds(start, record, params)
    &&& reports.len() == record.len()
    &&& forall|r: int|
        0 <= r < record.len() ==> is_report(
            (#[trigger] reports[r])@,
            after_rounds(start, record.take(r), params),
        )
}

/// Runs the game for `rounds` rounds. Each round starts with a report of
/// the population as it is; then every two agents exchange, in the order
/// of the population; then every agent whose energy is zero or less
/// leaves. The rounds are played to the last even if nobody is left.
/// Returns the reports, one for each round.
pub fn simulate(agents: &mut Vec<Agent>, rounds: i32, params: &GameParams) -> (reports: Vec<
    Vec<StrategySummary>,
>)
    requires
        simulation_fits(models(old(agents)@), rounds_asked(rounds), *params),
    ensures
        exists|record: Seq<Seq<Seq<Exchange>>>|
            record.len() == rounds_asked(rounds) && #[trigger] is_run(
                models(old(agents)@),
                record,
                *params,
                models(final(agents)@),
                reports@,
            ),
        final(agents).len() <= old(agents).len(),
{
    let ghost start = models(agents@);
    let ghost step = params.magnitude();
    let ghost size = agents.len() as int;
    let ghost per_round = meetings_of(size) * step;
    let ghost mut record: Seq<Seq<Seq<Exchange>>> = Seq::empty();
    let ghost asked = rounds_asked(rounds) as int;
    let ghost mut room: int = i64::MAX - asked * meetings_of(size) * step;
    let mut reports: Vec<Vec<StrategySummary>> = Vec::new();
    let mut round: i32 = 0;
    proof {
        assert(per_round >= 0) by (nonlinear_arith)
            requires
                per_round == meetings_of(size) * step,
                meetings_of(size) >= 0,
                step >= 0,
        ;
        assert(asked * meetings_of(size) * step == (asked - 0) * per_round)
            by (nonlinear_arith)
            requires
                per_round == meetings_of(size) * step,
        ;
    }
    while round < rounds
        invariant
            0 <= round,
            round <= rounds || round == 0,
            agents.len() <= size,
            size == old(agents).len(),
            step == params.magnitude(),
            per_round == meetings_of(size) * step,
            per_round >= 0,
            record.len() == round,
            is_run(start, record, *params, models(agents@), reports@),
            population_bounded(models(agents@), room),
            asked == rounds_asked(rounds),
            room + (asked - round) * per_round <= i64::MAX,
        decreases rounds - round,
    {
        let ghost entering = models(agents@);
        let ghost before = reports@;
        reports.push(report(agents));
        proof {
            assert(meetings_of(agents.len() as int) * step <= per_round) by (nonlinear_arith)
                requires
                    per_round == meetings_of(size) * step,
                    meetings_of(agents.len() as int) <= meetings_of(size),
                    step >= 0,
            ;
            assert((asked - round) * per_round == per_round + (asked - (round + 1)) * per_round)
                by (nonlinear_arith);
            assert((asked - (round + 1)) * per_round >= 0) by (nonlinear_arith)
                requires
                    asked - (round + 1) >= 0,
                    per_round >= 0,
            ;
        }
        let played = all_exchanges(agents, params, Ghost(room));
        proof {
            lemma_bounded_widens(
                models(agents@),
                reach(room, meetings_of(entering.len() as int), step),
                room + per_round,
            );
            lemma_survivors_bounded(models(agents@), room + per_round);
        }
        cull(agents);
        proof {
            let grown = record.push(played@);
            assert(grown.drop_last() =~= record);
            assert forall|r: int| 0 <= r < grown.len() implies is_report(
                (#[trigger] reports@[r])@,
                after_rounds(start, grown.take(r), *params),
            ) by {
                if r < record.len() {
                    assert(grown.take(r) =~= record.take(r));
                    assert(reports@[r] == before[r]);
                } else {
                    assert(grown.take(r) =~= record);
                }
            }
            record = grown;
            room = room + per_round;
        }
        round = round + 1;
    }
    proof {
        assert(record.len() == rounds_asked(rounds));
        assert(is_run(models(old(agents)@), record, *params, models(agents@), reports@));
    }
    reports
}

/// Plays one round where that is sure to stay within range, and says so;
/// otherwise leaves the population as it is and returns `false`.
pub fn try_play_round(agents: &mut Vec<Agent>, params: &GameParams) -> (played: bool)
    ensures
        played == round_fits(models(old(agents)@), *params),
        !played ==> final(agents)@ == old(agents)@,
        played ==> exists|round: Seq<Seq<Exchange>>|
            round_possible(models(old(agents)@), round, *params) && models(final(agents)@)
                == #[trigger] after_round(models(old(agents)@), round, *params),
        final(agents).len() <= old(agents).len(),
{
    match room_for(agents.len(), 1, params) {
        Some(limit) => {
            if all_within(agents, limit) {
                play_round(agents, params);
                true
            } else {
                false
            }
        },
        None => {
            proof {
                lemma_no_room(models(agents@), 1, *params);
            }
            false
        },
    }
}

/// Runs the game for `rounds` rounds where that is sure to stay within
/// range, and returns the reports as `simulate` does; otherwise leaves the
/// population as it is and returns `None`.
pub fn try_simulate(agents: &mut Vec<Agent>, rounds: i32, params: &GameParams) -> (reports:
    Option<Vec<Vec<StrategySummary>>>)
    ensures
        reports is Some == simulation_fits(models(old(agents)@), rounds_asked(rounds), *params),
        reports is None ==> final(agents)@ == old(agents)@,
        reports is Some ==> exists|record: Seq<Seq<Seq<Exchange>>>|
            record.len() == rounds_asked(rounds) && #[trigger] is_run(
                models(old(agents)@),
                record,
                *params,
                models(final(agents)@),
                reports.unwrap()@,
            ),
        final(agents).len() <= old(agents).len(),
{
    match room_for(agents.len(), rounds, params) {
        Some(limit) => {
            if all_within(agents, limit) {
                let lines = simulate(agents, rounds, params);
                let ghost given = lines@;
                let reports = Some(lines);
                proof {
                    assert(reports.unwrap()@ == given);
                }
                reports
            } else {
                None
            }
        },
        None => {
            proof {
                lemma_no_room(models(agents@), rounds_asked(rounds), *params);
            }
            None
        },
    }
}

/// Where the rounds could use up more room than there is, no population
/// with an agent in it leaves that room; a population without agents has
/// no encounters and uses up none.
pub proof fn lemma_no_room(agents: Seq<AgentModel>, rounds: nat, params: GameParams)
    requires
        budget(agents.len() as int, rounds, params) > i64::MAX,
    ensures
        !simulation_fits(agents, rounds, params),
{
    if agents.len() == 0 {
        let none = meetings_of(0);
        assert(rounds * none * params.magnitude() == 0) by (nonlinear_arith)
            requires
                none == 0,
        ;
    } else {
        let limit = i64::MAX - budget(agents.len() as int, rounds, params);
        if population_bounded(agents, limit) {
            assert(agents[0].bounded(limit));
        }
    }
}

} // verus!
