//! The figures reported of a population: how many agents follow each
//! strategy, and how much energy they hold together.

use crate::agent::{Agent, AgentModel};
use vstd::prelude::*;
use vstd::string::StrSliceExecFns;

verus! {

/// The figures of the agents that carry one label.
pub struct StrategySummary {
    /// The label these agents carry.
    pub label: String,
    /// How many they are.
    pub count: usize,
    /// The sum of their energies.
    pub total_energy: i128,
}

/// What the game can tell of each agent of a population, in order.
pub open spec fn models(agents: Seq<Agent>) -> Seq<AgentModel> {
    Seq::new(agents.len(), |i: int| agents[i]@)
}

/// The number of agents that carry `label`.
pub open spec fn headcount(agents: Seq<AgentModel>, label: Seq<char>) -> nat
    decreases agents.len(),
{
    if agents.len() == 0 {
        0
    } else {
        let rest = headcount(agents.drop_last(), label);
        if agents.last().strategy.label() == label {
            rest + 1
        } else {
            rest
        }
    }
}

/// The sum of the energies of the agents that carry `label`.
pub open spec fn energy_sum(agents: Seq<AgentModel>, label: Seq<char>) -> int
    decreases agents.len(),
{
    if agents.len() == 0 {
        0
    } else {
        let rest = energy_sum(agents.drop_last(), label);
        if agents.last().strategy.label() == label {
            rest + agents.last().energy
        } else {
            rest
        }
    }
}

/// Whether `a` comes before `b` in dictionary order from position `from`
/// on, given that the two agree before it. Characters are ordered by their
/// code points.
pub open spec fn precedes_from(a: Seq<char>, b: Seq<char>, from: int) -> bool
    decreases a.len() - from,
{
    if from < 0 || from >= b.len() {
        false
    } else if from >= a.len() {
        true
    } else if a[from] != b[from] {
        (a[from] as int) < (b[from] as int)
    } else {
        precedes_from(a, b, from + 1)
    }
}

/// Whether `a` comes strictly before `b` in dictionary order.
pub open spec fn precedes(a: Seq<char>, b: Seq<char>) -> bool {
    precedes_from(a, b, 0)
}

/// Whether each line counts the agents that carry its label, of which there
/// is at least one, and sums their energies.
pub open spec fn tallied(lines: Seq<StrategySummary>, agents: Seq<AgentModel>) -> bool {
    forall|i: int|
        0 <= i < lines.len() ==> {
            &&& (#[trigger] lines[i]).count > 0
            &&& lines[i].count == headcount(agents, lines[i].label@)
            &&& lines[i].total_energy == energy_sum(agents, lines[i].label@)
        }
}

/// Whether the lines stand in dictionary order of their labels, no label
/// twice.
pub open spec fn ordered(lines: Seq<StrategySummary>) -> bool {
    forall|i: int, j: int|
        0 <= i < j < lines.len() ==> precedes(
            (#[trigger] lines[i]).label@,
            (#[trigger] lines[j]).label@,
        )
}

/// Whether some line carries `label`.
pub open spec fn listed(lines: Seq<StrategySummary>, label: Seq<char>) -> bool {
    exists|i: int| 0 <= i < lines.len() && (#[trigger] lines[i]).label@ == label
}

/// Whether every agent finds its label among the lines.
pub open spec fn covers(lines: Seq<StrategySummary>, agents: Seq<AgentModel>) -> bool {
    forall|k: int|
        0 <= k < agents.len() ==> listed(lines, (#[trigger] agents[k]).strategy.label())
}

/// Whether `lines` is the report of `agents`: one line for each label that
/// some agent carries, with the number of those agents and the sum of their
/// energies, the lines in dictionary order of their labels.
pub open spec fn is_report(lines: Seq<StrategySummary>, agents: Seq<AgentModel>) -> bool {
    &&& tallied(lines, agents)
    &&& ordered(lines)
    &&& covers(lines, agents)
}

/// Dictionary order is transitive.
pub proof fn lemma_precedes_transitive(a: Seq<char>, b: Seq<char>, c: Seq<char>, from: int)
    requires
        precedes_from(a, b, from),
        precedes_from(b, c, from),
    ensures
        precedes_from(a, c, from),
    decreases a.len() - from,
{
    if from < a.len() && a[from] == b[from] && b[from] == c[from] {
        lemma_precedes_transitive(a, b, c, from + 1);
    }
}

/// Of two labels that agree before `from`, one comes before the other or
/// they are the same.
pub proof fn lemma_precedes_total(a: Seq<char>, b: Seq<char>, from: int)
    requires
        0 <= from <= a.len(),
        from <= b.len(),
        forall|k: int| 0 <= k < from ==> a[k] == b[k],
        !precedes_from(a, b, from),
        !precedes_from(b, a, from),
    ensures
        a == b,
    decreases a.len() - from,
{
    if from < a.len() && from < b.len() {
        assert(a[from] == b[from]);
        lemma_precedes_total(a, b, from + 1);
    } else {
        assert(a =~= b);
    }
}

/// No label comes before itself.
pub proof fn lemma_precedes_irreflexive(a: Seq<char>, from: int)
    ensures
        !precedes_from(a, a, from),
    decreases a.len() - from,
{
    if 0 <= from < a.len() {
        lemma_precedes_irreflexive(a, from + 1);
    }
}

/// A label that no agent carries counts nobody and sums to nothing.
pub proof fn lemma_absent_label(agents: Seq<AgentModel>, label: Seq<char>)
    requires
        forall|k: int| 0 <= k < agents.len() ==> (#[trigger] agents[k]).strategy.label() != label,
    ensures
        headcount(agents, label) == 0,
        energy_sum(agents, label) == 0,
    decreases agents.len(),
{
    if agents.len() > 0 {
        lemma_absent_label(agents.drop_last(), label);
    }
}

/// The agents that carry one label are no more than all agents, and their
/// energies sum to no more than that many times the largest energy.
pub proof fn lemma_tally_range(agents: Seq<AgentModel>, label: Seq<char>)
    ensures
        headcount(agents, label) <= agents.len(),
        -0x8000_0000_0000_0000 * agents.len() <= energy_sum(agents, label)
            <= 0x8000_0000_0000_0000 * agents.len(),
    decreases agents.len(),
{
    if agents.len() > 0 {
        lemma_tally_range(agents.drop_last(), label);
    }
}

/// Whether `a` comes strictly before `b` in dictionary order.
pub fn label_precedes(a: &String, b: &String) -> (before: bool)
    ensures
        before == precedes(a@, b@),
{
    let a_len: usize = a.as_str().unicode_len();
    let b_len: usize = b.as_str().unicode_len();
    let mut i: usize = 0;
    while i < a_len && i < b_len
        invariant
            a_len == a@.len(),
            b_len == b@.len(),
            i <= a_len,
            i <= b_len,
            precedes(a@, b@) == precedes_from(a@, b@, i as int),
        decreases a_len - i,
    {
        let x: char = a.as_str().get_char(i);
        let y: char = b.as_str().get_char(i);
        if x != y {
            return (x as u32) < (y as u32);
        }
        i = i + 1;
    }
    i < b_len
}

/// Looks for the line that carries `label`. Returns whether there is one,
/// and its place; where there is none, the place at which a line for
/// `label` keeps the order.
fn locate(lines: &Vec<StrategySummary>, label: &String) -> (place: (bool, usize))
    requires
        ordered(lines@),
    ensures
        place.1 <= lines.len(),
        place.0 ==> place.1 < lines.len() && lines[place.1 as int].label@ == label@,
        !place.0 ==> !listed(lines@, label@),
        !place.0 ==> forall|i: int|
            0 <= i < place.1 ==> precedes((#[trigger] lines[i]).label@, label@),
        !place.0 ==> forall|i: int|
            place.1 <= i < lines.len() ==> precedes(label@, (#[trigger] lines[i]).label@),
{
    let mut i: usize = 0;
    while i < lines.len()
        invariant
            i <= lines.len(),
            ordered(lines@),
            forall|j: int| 0 <= j < i ==> precedes((#[trigger] lines[j]).label@, label@),
            forall|j: int| 0 <= j < i ==> (#[trigger] lines[j]).label@ != label@,
        decreases lines.len() - i,
    {
        if lines[i].label == *label {
            return (true, i);
        }
        if label_precedes(label, &lines[i].label) {
            proof {
                assert forall|j: int| i <= j < lines.len() implies precedes(
                    label@,
                    (#[trigger] lines[j]).label@,
                ) by {
                    if i < j {
                        lemma_precedes_transitive(label@, lines[i as int].label@, lines[j].label@, 0);
                    }
                }
                assert forall|j: int| 0 <= j < lines.len() implies (#[trigger] lines[j]).label@
                    != label@ by {
                    lemma_precedes_irreflexive(label@, 0);
                }
            }
            return (false, i);
        }
        proof {
            if !precedes(lines[i as int].label@, label@) {
                lemma_precedes_total(lines[i as int].label@, label@, 0);
            }
        }
        i = i + 1;
    }
    (false, i)
}

/// Draws up the report of a population: for each label that some agent
/// carries, how many agents carry it and the sum of their energies, the
/// lines in dictionary order of their labels.
pub fn report(agents: &Vec<Agent>) -> (lines: Vec<StrategySummary>)
    ensures
        is_report(lines@, models(agents@)),
{
    let mut lines: Vec<StrategySummary> = Vec::new();
    let mut k: usize = 0;
    while k < agents.len()
        invariant
            k <= agents.len(),
            is_report(lines@, models(agents@).take(k as int)),
        decreases agents.len() - k,
    {
        let label: String = agents[k].get_type();
        let energy: i64 = agents[k].energy();
        let ghost before = models(agents@).take(k as int);
        let ghost after = models(agents@).take(k + 1);
        let ghost was = lines@;
        proof {
            assert(after.drop_last() =~= before);
            assert(after.last() == agents@[k as int]@);
        }
        let place = locate(&lines, &label);
        let at: usize = place.1;
        if place.0 {
            proof {
                lemma_tally_range(before, label@);
            }
            let count: usize = lines[at].count + 1;
            let total_energy: i128 = lines[at].total_energy + energy as i128;
            lines.set(at, StrategySummary { label, count, total_energy });
            proof {
                assert forall|i: int| 0 <= i < lines.len() && i != at implies (
                #[trigger] lines[i]).label@ != label@ by {
                    lemma_precedes_irreflexive(label@, 0);
                    assert(was[i].label@ == lines[i].label@);
                    assert(was[at as int].label@ == label@);
                }
                assert forall|n: int| 0 <= n < after.len() implies listed(
                    lines@,
                    (#[trigger] after[n]).strategy.label(),
                ) by {
                    if n < k {
                        assert(before[n] == after[n]);
                        let i = choose|i: int|
                            0 <= i < was.len() && (#[trigger] was[i]).label@
                                == before[n].strategy.label();
                        assert(lines[i].label@ == was[i].label@);
                    } else {
                        assert(lines[at as int].label@ == label@);
                    }
                }
                assert(ordered(lines@)) by {
                    assert forall|i: int, j: int| 0 <= i < j < lines.len() implies precedes(
                        (#[trigger] lines[i]).label@,
                        (#[trigger] lines[j]).label@,
                    ) by {
                        assert(lines[i].label@ == was[i].label@);
                        assert(lines[j].label@ == was[j].label@);
                    }
                }
            }
        } else {
            proof {
                assert forall|n: int| 0 <= n < before.len() implies (
                #[trigger] before[n]).strategy.label() != label@ by {
                    assert(listed(was, before[n].strategy.label()));
                }
                lemma_absent_label(before, label@);
            }
            lines.insert(at, StrategySummary { label, count: 1, total_energy: energy as i128 });
            proof {
                assert forall|i: int| 0 <= i < lines.len() implies {
                    &&& (#[trigger] lines[i]).count > 0
                    &&& lines[i].count == headcount(after, lines[i].label@)
                    &&& lines[i].total_energy == energy_sum(after, lines[i].label@)
                } by {
                    if i < at {
                        assert(lines[i] == was[i]);
                    } else if i > at {
                        assert(lines[i] == was[i - 1]);
                        assert(listed(was, was[i - 1].label@));
                    }
                }
                assert forall|i: int, j: int| 0 <= i < j < lines.len() implies precedes(
                    (#[trigger] lines[i]).label@,
                    (#[trigger] lines[j]).label@,
                ) by {
                    if i < at {
                        assert(lines[i] == was[i]);
                    } else if i > at {
                        assert(lines[i] == was[i - 1]);
                    }
                    if j < at {
                        assert(lines[j] == was[j]);
                    } else if j > at {
                        assert(lines[j] == was[j - 1]);
                    }
                }
                assert forall|n: int| 0 <= n < after.len() implies listed(
                    lines@,
                    (#[trigger] after[n]).strategy.label(),
                ) by {
                    if n < k {
                        assert(before[n] == after[n]);
                        let i = choose|i: int|
                            0 <= i < was.len() && (#[trigger] was[i]).label@
                                == before[n].strategy.label();
                        if i < at {
                            assert(lines[i] == was[i]);
                        } else {
                            assert(lines[i + 1] == was[i]);
                        }
                    } else {
                        assert(lines[at as int].label@ == label@);
                    }
                }
            }
        }
        k = k + 1;
    }
    proof {
        assert(models(agents@).take(k as int) =~= models(agents@));
    }
    lines
}

} // verus!
