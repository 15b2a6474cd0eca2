//! A population in which no draw decides anything has one future.

use crate::agent::{possible, AgentModel};
use crate::params::{GameParams, Outcome};
use crate::population::survivors;
use crate::report::{
    headcount, is_report, lemma_absent_label, lemma_precedes_irreflexive,
    lemma_precedes_transitive, listed, StrategySummary,
};
use crate::simulation::{
    after_hosts, after_round, after_rounds, after_visits, exchange, exchange_possible,
    hosts_possible, is_run, meet, round_possible, rounds_possible, visits_possible, Exchange,
};
use vstd::prelude::*;

verus! {

/// Whether every agent follows a strategy with one answer to every
/// question: a tracker, or a randomized strategy whose probabilities are
/// none or all.
pub open spec fn population_deterministic(agents: Seq<AgentModel>) -> bool {
    forall|i: int| 0 <= i < agents.len() ==> (#[trigger] agents[i]).strategy.deterministic()
}

/// Whether two reports say the same: the same labels in the same order,
/// with the same counts and sums.
pub open spec fn same_lines(a: Seq<StrategySummary>, b: Seq<StrategySummary>) -> bool {
    &&& a.len() == b.len()
    &&& forall|i: int|
        0 <= i < a.len() ==> {
            &&& (#[trigger] a[i]).label@ == b[i].label@
            &&& a[i].count == b[i].count
            &&& a[i].total_energy == b[i].total_energy
        }
}

/// Between two agents with deterministic strategies an encounter can end in
/// one way only.
pub proof fn lemma_outcome_determined(
    lender: AgentModel,
    borrower: AgentModel,
    one: Outcome,
    other: Outcome,
)
    requires
        lender.strategy.deterministic(),
        borrower.strategy.deterministic(),
        possible(lender, borrower, one),
        possible(lender, borrower, other),
    ensures
        one == other,
{
}

/// An encounter leaves a deterministic population deterministic.
pub proof fn lemma_meet_keeps_determinism(
    agents: Seq<AgentModel>,
    lender: int,
    borrower: int,
    outcome: Outcome,
    params: GameParams,
)
    requires
        population_deterministic(agents),
        0 <= lender < agents.len(),
        0 <= borrower < agents.len(),
    ensures
        population_deterministic(meet(agents, lender, borrower, outcome, params)),
        meet(agents, lender, borrower, outcome, params).len() == agents.len(),
{
    let after = meet(agents, lender, borrower, outcome, params);
    assert forall|i: int| 0 <= i < after.len() implies (
    #[trigger] after[i]).strategy.deterministic() by {
        assert(agents[i].strategy.deterministic());
    }
}

/// In a deterministic population two agents can exchange in one way only.
pub proof fn lemma_exchange_determined(
    agents: Seq<AgentModel>,
    first: int,
    second: int,
    one: Exchange,
    other: Exchange,
    params: GameParams,
)
    requires
        population_deterministic(agents),
        0 <= first < agents.len(),
        0 <= second < agents.len(),
        exchange_possible(agents, first, second, one, params),
        exchange_possible(agents, first, second, other, params),
    ensures
        one == other,
        population_deterministic(exchange(agents, first, second, one, params)),
        exchange(agents, first, second, one, params).len() == agents.len(),
{
    lemma_outcome_determined(agents[first], agents[second], one.0, other.0);
    let between = meet(agents, first, second, one.0, params);
    lemma_meet_keeps_determinism(agents, first, second, one.0, params);
    lemma_outcome_determined(between[second], between[first], one.1, other.1);
    lemma_meet_keeps_determinism(between, second, first, one.1, params);
}

/// In a deterministic population a host can exchange with those that follow
/// it in one way only.
pub proof fn lemma_visits_determined(
    agents: Seq<AgentModel>,
    host: int,
    one: Seq<Exchange>,
    other: Seq<Exchange>,
    params: GameParams,
)
    requires
        population_deterministic(agents),
        0 <= host,
        host + one.len() < agents.len(),
        one.len() == other.len(),
        visits_possible(agents, host, one, params),
        visits_possible(agents, host, other, params),
    ensures
        one == other,
        population_deterministic(after_visits(agents, host, one, params)),
        after_visits(agents, host, one, params).len() == agents.len(),
    decreases one.len(),
{
    if one.len() > 0 {
        lemma_visits_determined(agents, host, one.drop_last(), other.drop_last(), params);
        lemma_exchange_determined(
            after_visits(agents, host, one.drop_last(), params),
            host,
            host + one.len(),
            one.last(),
            other.last(),
            params,
        );
        assert(one =~= one.drop_last().push(one.last()));
        assert(other =~= other.drop_last().push(other.last()));
    } else {
        assert(one =~= other);
    }
}

/// In a deterministic population the exchanges of a round can go in one
/// way only.
pub proof fn lemma_hosts_determined(
    agents: Seq<AgentModel>,
    one: Seq<Seq<Exchange>>,
    other: Seq<Seq<Exchange>>,
    params: GameParams,
)
    requires
        population_deterministic(agents),
        one.len() <= agents.len(),
        one.len() == other.len(),
        hosts_possible(agents, one, params),
        hosts_possible(agents, other, params),
    ensures
        one == other,
        population_deterministic(after_hosts(agents, one, params)),
        after_hosts(agents, one, params).len() == agents.len(),
    decreases one.len(),
{
    if one.len() > 0 {
        lemma_hosts_determined(agents, one.drop_last(), other.drop_last(), params);
        lemma_visits_determined(
            after_hosts(agents, one.drop_last(), params),
            one.len() - 1,
            one.last(),
            other.last(),
            params,
        );
        assert(one =~= one.drop_last().push(one.last()));
        assert(other =~= other.drop_last().push(other.last()));
    } else {
        assert(one =~= other);
    }
}

/// Those who stay of a deterministic population are a deterministic
/// population.
pub proof fn lemma_survivors_keep_determinism(agents: Seq<AgentModel>)
    requires
        population_deterministic(agents),
    ensures
        population_deterministic(survivors(agents)),
    decreases agents.len(),
{
    if agents.len() > 0 {
        assert forall|i: int| 0 <= i < agents.drop_last().len() implies (
        #[trigger] agents.drop_last()[i]).strategy.deterministic() by {
            assert(agents[i].strategy.deterministic());
        }
        lemma_survivors_keep_determinism(agents.drop_last());
        assert(agents.last().strategy.deterministic());
    }
}

/// From a deterministic population a number of rounds can go in one way
/// only: two records of as many rounds are the same record, and lead to the
/// same population.
pub proof fn lemma_rounds_determined(
    agents: Seq<AgentModel>,
    one: Seq<Seq<Seq<Exchange>>>,
    other: Seq<Seq<Seq<Exchange>>>,
    params: GameParams,
)
    requires
        population_deterministic(agents),
        one.len() == other.len(),
        rounds_possible(agents, one, params),
        rounds_possible(agents, other, params),
    ensures
        one == other,
        after_rounds(agents, one, params) == after_rounds(agents, other, params),
        population_deterministic(after_rounds(agents, one, params)),
    decreases one.len(),
{
    if one.len() > 0 {
        lemma_rounds_determined(agents, one.drop_last(), other.drop_last(), params);
        let entering = after_rounds(agents, one.drop_last(), params);
        lemma_hosts_determined(entering, one.last(), other.last(), params);
        lemma_survivors_keep_determinism(after_hosts(entering, one.last(), params));
        assert(one =~= one.drop_last().push(one.last()));
        assert(other =~= other.drop_last().push(other.last()));
    } else {
        assert(one =~= other);
    }
}

/// A line of a report carries a label that some agent carries.
proof fn lemma_line_has_agent(lines: Seq<StrategySummary>, agents: Seq<AgentModel>, i: int) -> (k:
    int)
    requires
        is_report(lines, agents),
        0 <= i < lines.len(),
    ensures
        0 <= k < agents.len(),
        agents[k].strategy.label() == lines[i].label@,
{
    if forall|k: int|
        0 <= k < agents.len() ==> (#[trigger] agents[k]).strategy.label() != lines[i].label@ {
        lemma_absent_label(agents, lines[i].label@);
        assert(lines[i].count == headcount(agents, lines[i].label@));
    }
    choose|k: int| 0 <= k < agents.len() && (#[trigger] agents[k]).strategy.label() == lines[i].label@
}

/// Two reports of one population carry the same labels at their first
/// `n` places.
proof fn lemma_reports_agree_upto(
    a: Seq<StrategySummary>,
    b: Seq<StrategySummary>,
    agents: Seq<AgentModel>,
    n: int,
)
    requires
        is_report(a, agents),
        is_report(b, agents),
        0 <= n <= a.len(),
    ensures
        n <= b.len(),
        forall|j: int| 0 <= j < n ==> (#[trigger] a[j]).label@ == b[j].label@,
    decreases n,
{
    if n > 0 {
        lemma_reports_agree_upto(a, b, agents, n - 1);
        let i = n - 1;
        let x = a[i].label@;
        let k = lemma_line_has_agent(a, agents, i);
        assert(listed(b, agents[k].strategy.label()));
        let m = choose|m: int| 0 <= m < b.len() && (#[trigger] b[m]).label@ == x;
        lemma_precedes_irreflexive(x, 0);
        if m < i {
            assert(a[m].label@ == b[m].label@);
        }
        let y = b[i].label@;
        let k2 = lemma_line_has_agent(b, agents, i);
        assert(listed(a, agents[k2].strategy.label()));
        let w = choose|w: int| 0 <= w < a.len() && (#[trigger] a[w]).label@ == y;
        lemma_precedes_irreflexive(y, 0);
        if w < i {
            assert(a[w].label@ == b[w].label@);
        }
        if m > i && w > i {
            lemma_precedes_transitive(x, y, x, 0);
        }
    }
}

/// A population has one report: two reports of it say the same.
pub proof fn lemma_report_determined(
    a: Seq<StrategySummary>,
    b: Seq<StrategySummary>,
    agents: Seq<AgentModel>,
)
    requires
        is_report(a, agents),
        is_report(b, agents),
    ensures
        same_lines(a, b),
{
    lemma_reports_agree_upto(a, b, agents, a.len() as int);
    lemma_reports_agree_upto(b, a, agents, b.len() as int);
}

/// Two runs of as many rounds from one population, in which every agent
/// follows a tracker or another deterministic strategy, are the same run:
/// they pass through the same exchanges, hold the same population after
/// every round and at the end, and give the same reports round by round.
pub proof fn lemma_run_determined(
    start: Seq<AgentModel>,
    params: GameParams,
    one: Seq<Seq<Seq<Exchange>>>,
    one_end: Seq<AgentModel>,
    one_reports: Seq<Vec<StrategySummary>>,
    other: Seq<Seq<Seq<Exchange>>>,
    other_end: Seq<AgentModel>,
    other_reports: Seq<Vec<StrategySummary>>,
)
    requires
        population_deterministic(start),
        one.len() == other.len(),
        is_run(start, one, params, one_end, one_reports),
        is_run(start, other, params, other_end, other_reports),
    ensures
        one == other,
        forall|r: int|
            0 <= r <= one.len() ==> #[trigger] after_rounds(start, one.take(r), params)
                == after_rounds(start, other.take(r), params),
        one_end == other_end,
        one_reports.len() == other_reports.len(),
        forall|r: int|
            0 <= r < one_reports.len() ==> same_lines(
                (#[trigger] one_reports[r])@,
                other_reports[r]@,
            ),
{
    lemma_rounds_determined(start, one, other, params);
    assert forall|r: int| 0 <= r < one_reports.len() implies same_lines(
        (#[trigger] one_reports[r])@,
        other_reports[r]@,
    ) by {
        lemma_report_determined(
            one_reports[r]@,
            other_reports[r]@,
            after_rounds(start, one.take(r), params),
        );
    }
}

} // verus!
