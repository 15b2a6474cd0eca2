use lending_game::agent::Agent;
use lending_game::params::{GameParams, INITIAL_ENERGY};
use lending_game::population::{gen_agents, AgentDefinition, StrategyKind};
use lending_game::random::{RandomStrategy, PROBABILITY_SCALE};
use lending_game::report::StrategySummary;
use lending_game::reputation::ReputationTracker;
use lending_game::simulation::{play_round, room_for, simulate, try_play_round, try_simulate};
use lending_game::strategy::Strategy;

fn tracker(id: usize, energy: i64) -> Agent {
    Agent::new(id, energy, Strategy::Reputation(ReputationTracker::new(true)))
}

fn never(id: usize, energy: i64) -> Agent {
    Agent::new(
        id,
        energy,
        Strategy::Random(RandomStrategy::new(0, 0, "never".to_string(), id as u64)),
    )
}

fn always(id: usize, energy: i64) -> Agent {
    Agent::new(
        id,
        energy,
        Strategy::Random(RandomStrategy::new(
            PROBABILITY_SCALE,
            PROBABILITY_SCALE,
            "always".to_string(),
            id as u64,
        )),
    )
}

fn state(agents: &[Agent]) -> Vec<(usize, i64)> {
    agents.iter().map(|a| (a.id(), a.energy())).collect()
}

fn lines(report: &[StrategySummary]) -> Vec<(String, usize, i128)> {
    report.iter().map(|l| (l.label.clone(), l.count, l.total_energy)).collect()
}

fn score(agent: &Agent, peer: usize) -> Option<i64> {
    match agent.strategy() {
        Strategy::Reputation(t) => t.score(peer),
        Strategy::Random(_) => None,
    }
}

fn deterministic_roster() -> Vec<AgentDefinition> {
    vec![
        (StrategyKind::Reputation { optimistic: true }, 6),
        (
            StrategyKind::Random { accept_prob: 0, coop_prob: 0, label: "never".to_string() },
            3,
        ),
        (StrategyKind::Reputation { optimistic: false }, 2),
        (
            StrategyKind::Random {
                accept_prob: PROBABILITY_SCALE,
                coop_prob: 0,
                label: "taker".to_string(),
            },
            2,
        ),
    ]
}

#[test]
fn round_of_trusting_trackers() {
    let p = GameParams::standard();
    let mut agents = vec![tracker(0, 256), tracker(1, 256), tracker(2, 256)];
    play_round(&mut agents, &p);
    assert_eq!(state(&agents), vec![(0, 260), (1, 260), (2, 260)]);
    for a in 0..3 {
        for b in 0..3 {
            if a != b {
                assert_eq!(score(&agents[a], b), Some(2));
            }
        }
    }
    play_round(&mut agents, &p);
    assert_eq!(state(&agents), vec![(0, 264), (1, 264), (2, 264)]);
}

#[test]
fn round_of_tracker_and_always_defect() {
    let p = GameParams::standard();
    let mut agents = vec![tracker(0, 256), never(1, 256)];
    play_round(&mut agents, &p);
    assert_eq!(state(&agents), vec![(0, 249), (1, 262)]);
    play_round(&mut agents, &p);
    assert_eq!(state(&agents), vec![(0, 249), (1, 262)]);
    assert_eq!(score(&agents[0], 1), Some(-7));
}

#[test]
fn earlier_agent_lends_first() {
    let p = GameParams {
        borrower_defect_payout: 0,
        borrower_coop_payout: -5,
        lender_defect_payout: 0,
        lender_coop_payout: 1,
    };
    let mut agents = vec![tracker(0, 256), tracker(1, 256)];
    play_round(&mut agents, &p);
    // Agent 0 lends first: agent 1 borrows at a loss and holds it against
    // agent 0, so it turns agent 0 down when the roles are swapped.
    assert_eq!(state(&agents), vec![(0, 257), (1, 251)]);
    assert_eq!(score(&agents[0], 1), Some(1));
    assert_eq!(score(&agents[1], 0), Some(-5));
}

#[test]
fn round_removes_the_exhausted_afterwards() {
    let p = GameParams::standard();
    let mut agents = vec![tracker(0, 5), never(1, 256), tracker(2, 8)];
    play_round(&mut agents, &p);
    // Agent 0 is robbed by agent 1 (-7), lends to agent 2 (-1) and borrows
    // from it (+3): it ends on exactly zero and leaves. Agent 2 gains 3,
    // loses 1, and is robbed by agent 1 in its turn.
    assert_eq!(state(&agents), vec![(1, 268), (2, 3)]);
    assert_eq!(score(&agents[1], 0), Some(2));
    assert_eq!(score(&agents[1], 1), Some(-7));
}

#[test]
fn exhausted_agent_still_plays_out_its_round() {
    let p = GameParams::standard();
    let mut agents = vec![tracker(0, 1), tracker(1, 256)];
    play_round(&mut agents, &p);
    assert_eq!(state(&agents), vec![(0, 3), (1, 258)]);
    let mut low = vec![tracker(0, -10), tracker(1, 256)];
    play_round(&mut low, &p);
    assert_eq!(state(&low), vec![(1, 258)]);
}

#[test]
fn round_of_one_or_none_changes_nothing_but_the_dead() {
    let p = GameParams::standard();
    let mut nobody: Vec<Agent> = Vec::new();
    play_round(&mut nobody, &p);
    assert!(nobody.is_empty());
    let mut alone = vec![tracker(5, 10)];
    play_round(&mut alone, &p);
    assert_eq!(state(&alone), vec![(5, 10)]);
    let mut spent = vec![tracker(5, 0)];
    play_round(&mut spent, &p);
    assert!(spent.is_empty());
}

#[test]
fn simulation_reports_before_each_round() {
    let p = GameParams::standard();
    let mut agents = vec![tracker(0, 256), never(1, 256)];
    let reports = simulate(&mut agents, 3, &p);
    assert_eq!(reports.len(), 3);
    assert_eq!(
        lines(&reports[0]),
        vec![("never".to_string(), 1, 256), ("reputation tracker".to_string(), 1, 256)]
    );
    assert_eq!(
        lines(&reports[1]),
        vec![("never".to_string(), 1, 262), ("reputation tracker".to_string(), 1, 249)]
    );
    assert_eq!(lines(&reports[2]), lines(&reports[1]));
    assert_eq!(state(&agents), vec![(0, 249), (1, 262)]);
}

#[test]
fn simulation_of_no_rounds_does_nothing() {
    let p = GameParams::standard();
    let mut agents = vec![tracker(0, 0), tracker(1, 5)];
    assert!(simulate(&mut agents, 0, &p).is_empty());
    assert_eq!(state(&agents), vec![(0, 0), (1, 5)]);
    assert!(simulate(&mut agents, -4, &p).is_empty());
    assert_eq!(state(&agents), vec![(0, 0), (1, 5)]);
}

#[test]
fn simulation_goes_on_after_extinction() {
    let p = GameParams {
        borrower_defect_payout: -300,
        borrower_coop_payout: -300,
        lender_defect_payout: -300,
        lender_coop_payout: -300,
    };
    let mut agents = vec![always(0, 256), always(1, 256), always(2, 256)];
    let reports = simulate(&mut agents, 4, &p);
    assert!(agents.is_empty());
    assert_eq!(reports.len(), 4);
    assert_eq!(lines(&reports[0]), vec![("always".to_string(), 3, 768)]);
    assert!(reports[1].is_empty());
    assert!(reports[2].is_empty());
    assert!(reports[3].is_empty());
}

#[test]
fn simulation_is_the_rounds_one_after_another() {
    let p = GameParams::standard();
    let mut together = gen_agents(deterministic_roster(), 3);
    let mut apart = gen_agents(deterministic_roster(), 3);
    simulate(&mut together, 5, &p);
    for _ in 0..5 {
        play_round(&mut apart, &p);
    }
    assert_eq!(state(&together), state(&apart));
}

#[test]
fn deterministic_population_runs_the_same_twice() {
    let p = GameParams::standard();
    let mut one = gen_agents(deterministic_roster(), 1);
    let mut other = gen_agents(deterministic_roster(), 2);
    let mut one_states = Vec::new();
    let mut other_states = Vec::new();
    for _ in 0..8 {
        let a = simulate(&mut one, 1, &p);
        let b = simulate(&mut other, 1, &p);
        assert_eq!(lines(&a[0]), lines(&b[0]));
        one_states.push(state(&one));
        other_states.push(state(&other));
    }
    assert_eq!(one_states, other_states);
    assert!(one_states[0] != one_states[7]);
}

#[test]
fn deterministic_population_gives_the_same_reports_twice() {
    let p = GameParams::standard();
    let mut one = gen_agents(deterministic_roster(), 10);
    let mut other = gen_agents(deterministic_roster(), 20);
    let a = simulate(&mut one, 30, &p);
    let b = simulate(&mut other, 30, &p);
    assert_eq!(a.len(), 30);
    for round in 0..30 {
        assert_eq!(lines(&a[round]), lines(&b[round]));
    }
    assert_eq!(state(&one), state(&other));
}

#[test]
fn seeded_population_runs_the_same_twice() {
    let p = GameParams::standard();
    let roster = || {
        vec![
            (StrategyKind::Reputation { optimistic: true }, 8),
            (
                StrategyKind::Random {
                    accept_prob: 500_000,
                    coop_prob: 500_000,
                    label: "random 50/50".to_string(),
                },
                8,
            ),
        ]
    };
    let mut one = gen_agents(roster(), 77);
    let mut other = gen_agents(roster(), 77);
    simulate(&mut one, 10, &p);
    simulate(&mut other, 10, &p);
    assert_eq!(state(&one), state(&other));
}

#[test]
fn energies_move_only_by_payoffs() {
    let p = GameParams {
        borrower_defect_payout: 1000,
        borrower_coop_payout: 100,
        lender_defect_payout: -10,
        lender_coop_payout: -1,
    };
    let roster = vec![
        (StrategyKind::Reputation { optimistic: true }, 3),
        (
            StrategyKind::Random {
                accept_prob: 500_000,
                coop_prob: 500_000,
                label: "r".to_string(),
            },
            3,
        ),
    ];
    let mut agents = gen_agents(roster, 5);
    play_round(&mut agents, &p);
    for agent in &agents {
        let moved = agent.energy() - INITIAL_ENERGY;
        // Each agent borrowed at most five times and lent at most five
        // times: the digits count how often each payoff was taken.
        let taken = moved + 55;
        assert!(taken >= 0);
        let steals = taken / 1000;
        let uses = (taken % 1000) / 100;
        let rest = 55 - taken % 100;
        let robbed = rest / 10;
        let lent = rest % 10;
        assert!(steals + uses <= 5, "{moved}");
        assert!(robbed + lent <= 5, "{moved}");
        assert_eq!(moved, 1000 * steals + 100 * uses - 10 * robbed - lent);
    }
}

#[test]
fn room_is_what_the_encounters_leave() {
    let p = GameParams::standard();
    assert_eq!(room_for(2, 1, &p), Some(i64::MAX - 14));
    assert_eq!(room_for(3, 1, &p), Some(i64::MAX - 28));
    assert_eq!(room_for(3, 2, &p), Some(i64::MAX - 56));
    assert_eq!(room_for(128, 30, &p), Some(i64::MAX - 30 * 254 * 7));
    assert_eq!(room_for(1 << 32, 1, &p), Some(i64::MAX - 2 * ((1 << 32) - 1) * 7));
    assert_eq!(room_for(0, 30, &p), Some(i64::MAX));
    assert_eq!(room_for(1, 30, &p), Some(i64::MAX));
    assert_eq!(room_for(128, 0, &p), Some(i64::MAX));
    assert_eq!(room_for(128, -1, &p), Some(i64::MAX));
    assert_eq!(room_for(128, i32::MIN, &p), Some(i64::MAX));
    let free = GameParams {
        borrower_defect_payout: 0,
        borrower_coop_payout: 0,
        lender_defect_payout: 0,
        lender_coop_payout: 0,
    };
    assert_eq!(room_for(usize::MAX, i32::MAX, &free), Some(i64::MAX));
}

#[test]
fn room_runs_out() {
    let p = GameParams::standard();
    assert_eq!(room_for(usize::MAX, 1, &p), None);
    assert_eq!(room_for(1 << 62, 1, &p), None);
    assert_eq!(room_for(1 << 40, i32::MAX, &p), None);
    let huge = GameParams {
        borrower_defect_payout: i64::MIN,
        borrower_coop_payout: 0,
        lender_defect_payout: 0,
        lender_coop_payout: 0,
    };
    assert_eq!(room_for(2, 1, &huge), None);
    let large = GameParams {
        borrower_defect_payout: i64::MAX / 2,
        borrower_coop_payout: 0,
        lender_defect_payout: 0,
        lender_coop_payout: 0,
    };
    assert_eq!(room_for(2, 1, &large), Some(1));
    assert_eq!(room_for(2, 2, &large), None);
}

#[test]
fn simulation_without_room_is_not_started() {
    let p = GameParams::standard();
    let mut agents = vec![tracker(0, i64::MAX - 13), never(1, 256)];
    assert!(try_simulate(&mut agents, 1, &p).is_none());
    assert_eq!(state(&agents), vec![(0, i64::MAX - 13), (1, 256)]);
    assert!(!try_play_round(&mut agents, &p));
    assert_eq!(state(&agents), vec![(0, i64::MAX - 13), (1, 256)]);
    assert!(try_simulate(&mut agents, 0, &p).is_some());
    assert_eq!(state(&agents), vec![(0, i64::MAX - 13), (1, 256)]);
}

#[test]
fn simulation_with_room_is_played() {
    let p = GameParams::standard();
    let mut agents = vec![tracker(0, i64::MAX - 14), never(1, 256)];
    assert!(try_play_round(&mut agents, &p));
    assert_eq!(state(&agents), vec![(0, i64::MAX - 21), (1, 262)]);
    let mut more = vec![tracker(0, 256), never(1, 256)];
    let reports = try_simulate(&mut more, 2, &p).unwrap();
    assert_eq!(reports.len(), 2);
    assert_eq!(state(&more), vec![(0, 249), (1, 262)]);
}

#[test]
fn simulation_without_room_for_a_score_is_not_started() {
    let p = GameParams::standard();
    let big = GameParams {
        borrower_defect_payout: 0,
        borrower_coop_payout: i64::MAX - 10,
        lender_defect_payout: 0,
        lender_coop_payout: 0,
    };
    let mut agents = vec![tracker(0, 0), tracker(1, 0)];
    agents[0].borrow_from(1, &big);
    assert_eq!(score(&agents[0], 1), Some(i64::MAX - 10));
    assert!(!try_play_round(&mut agents, &p));
    assert!(try_simulate(&mut agents, 1, &p).is_none());
    assert_eq!(score(&agents[0], 1), Some(i64::MAX - 10));
}

#[test]
fn standard_game_runs_to_the_last_round() {
    let p = GameParams::standard();
    let roster = vec![
        (StrategyKind::Reputation { optimistic: true }, 64),
        (
            StrategyKind::Random {
                accept_prob: 0,
                coop_prob: 0,
                label: "never accept, always defect".to_string(),
            },
            32,
        ),
        (
            StrategyKind::Random {
                accept_prob: 500_000,
                coop_prob: 500_000,
                label: "random 50/50".to_string(),
            },
            32,
        ),
    ];
    let mut agents = gen_agents(roster, 2024);
    let reports = try_simulate(&mut agents, 30, &p).unwrap();
    assert_eq!(reports.len(), 30);
    assert_eq!(
        lines(&reports[0]),
        vec![
            ("never accept, always defect".to_string(), 32, 32 * 256),
            ("random 50/50".to_string(), 32, 32 * 256),
            ("reputation tracker".to_string(), 64, 64 * 256),
        ]
    );
    let mut heads = 0;
    for line in &reports[29] {
        assert!(line.count > 0);
        heads += line.count;
    }
    assert!(heads >= agents.len());
    for agent in &agents {
        assert!(agent.energy() > 0);
    }
}
