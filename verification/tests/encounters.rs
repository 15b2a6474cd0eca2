use lending_game::agent::{encounter, Agent};
use lending_game::params::{GameParams, Outcome, INITIAL_ENERGY};
use lending_game::random::{RandomStrategy, PROBABILITY_SCALE};
use lending_game::reputation::ReputationTracker;
use lending_game::simulation::encounter_between;
use lending_game::strategy::Strategy;

fn tracker(id: usize, optimistic: bool) -> Agent {
    Agent::new(id, INITIAL_ENERGY, Strategy::Reputation(ReputationTracker::new(optimistic)))
}

fn fixed(id: usize, accept: bool, coop: bool) -> Agent {
    let a = if accept { PROBABILITY_SCALE } else { 0 };
    let c = if coop { PROBABILITY_SCALE } else { 0 };
    Agent::new(
        id,
        INITIAL_ENERGY,
        Strategy::Random(RandomStrategy::new(a, c, "fixed".to_string(), id as u64)),
    )
}

fn score(agent: &Agent, peer: usize) -> Option<i64> {
    match agent.strategy() {
        Strategy::Reputation(t) => t.score(peer),
        Strategy::Random(_) => None,
    }
}

fn odd_params() -> GameParams {
    GameParams {
        borrower_defect_payout: 11,
        borrower_coop_payout: 5,
        lender_defect_payout: -13,
        lender_coop_payout: -2,
    }
}

#[test]
fn new_agent_holds_what_it_was_given() {
    let a = Agent::new(17, -3, Strategy::Reputation(ReputationTracker::new(false)));
    assert_eq!(a.id(), 17);
    assert_eq!(a.energy(), -3);
    assert_eq!(a.get_type(), "reputation tracker");
    assert!(!a.is_alive());
    assert_eq!(INITIAL_ENERGY, 256);
}

#[test]
fn cooperation_pays_both_by_the_table() {
    let p = odd_params();
    let mut lender = tracker(0, true);
    let mut borrower = tracker(1, true);
    assert_eq!(encounter(&mut lender, &mut borrower, &p), Outcome::Cooperated);
    assert_eq!(lender.energy(), 256 - 2);
    assert_eq!(borrower.energy(), 256 + 5);
    assert_eq!(score(&lender, 1), Some(-2));
    assert_eq!(score(&borrower, 0), Some(5));
    assert_eq!(lender.id(), 0);
    assert_eq!(borrower.id(), 1);
}

#[test]
fn defection_pays_both_by_the_table() {
    let p = odd_params();
    let mut lender = tracker(0, true);
    let mut borrower = fixed(1, false, false);
    assert_eq!(encounter(&mut lender, &mut borrower, &p), Outcome::Defected);
    assert_eq!(lender.energy(), 256 - 13);
    assert_eq!(borrower.energy(), 256 + 11);
    assert_eq!(score(&lender, 1), Some(-13));
}

#[test]
fn rejection_changes_no_energy() {
    let p = odd_params();
    let mut lender = fixed(0, false, true);
    let mut borrower = tracker(1, true);
    assert_eq!(encounter(&mut lender, &mut borrower, &p), Outcome::Rejected);
    assert_eq!(lender.energy(), 256);
    assert_eq!(borrower.energy(), 256);
    assert_eq!(score(&borrower, 0), None);
}

#[test]
fn wary_tracker_lends_to_nobody_new() {
    let p = GameParams::standard();
    let mut lender = tracker(0, false);
    let mut borrower = fixed(1, true, true);
    assert_eq!(encounter(&mut lender, &mut borrower, &p), Outcome::Rejected);
    assert_eq!(lender.energy(), 256);
    assert_eq!(borrower.energy(), 256);
}

#[test]
fn tracker_and_always_defect_scenario() {
    let p = GameParams::standard();
    let mut a = tracker(0, true);
    let mut b = fixed(1, false, false);
    assert_eq!(encounter(&mut a, &mut b, &p), Outcome::Defected);
    assert_eq!(a.energy(), 249);
    assert_eq!(b.energy(), 262);
    assert_eq!(score(&a, 1), Some(-7));
    assert_eq!(encounter(&mut b, &mut a, &p), Outcome::Rejected);
    assert_eq!(a.energy(), 249);
    assert_eq!(b.energy(), 262);
    for _ in 0..10 {
        assert_eq!(encounter(&mut a, &mut b, &p), Outcome::Rejected);
        assert_eq!(encounter(&mut b, &mut a, &p), Outcome::Rejected);
    }
    assert_eq!(a.energy(), 249);
    assert_eq!(b.energy(), 262);
    assert_eq!(score(&a, 1), Some(-7));
}

#[test]
fn negative_score_gates_the_next_request() {
    let p = GameParams::standard();
    let mut lender = tracker(0, false);
    let mut borrower = fixed(1, true, false);
    lender.settle_loan(1, false, &p);
    assert_eq!(score(&lender, 1), Some(-7));
    let before = (lender.energy(), borrower.energy());
    assert_eq!(encounter(&mut lender, &mut borrower, &p), Outcome::Rejected);
    assert_eq!((lender.energy(), borrower.energy()), before);
}

#[test]
fn energy_may_go_below_zero() {
    let p = GameParams::standard();
    let mut lender = Agent::new(0, 3, Strategy::Reputation(ReputationTracker::new(true)));
    let mut borrower = fixed(1, false, false);
    assert_eq!(encounter(&mut lender, &mut borrower, &p), Outcome::Defected);
    assert_eq!(lender.energy(), -4);
    assert!(!lender.is_alive());
}

#[test]
fn steps_of_an_encounter_one_agent_at_a_time() {
    let p = GameParams::standard();
    let mut lender = tracker(0, true);
    let mut borrower = tracker(1, true);
    assert!(lender.decide_request(1));
    assert!(borrower.borrow_from(0, &p));
    assert_eq!(borrower.energy(), 259);
    lender.settle_loan(1, true, &p);
    assert_eq!(lender.energy(), 255);
    borrower.take_rejection(0);
    assert_eq!(borrower.energy(), 259);
    assert_eq!(score(&borrower, 0), Some(3));
    assert_eq!(score(&lender, 1), Some(-1));
}

#[test]
fn encounter_by_place_is_the_same_encounter() {
    let p = GameParams::standard();
    let mut agents = vec![tracker(10, true), fixed(11, false, false), tracker(12, true)];
    assert_eq!(encounter_between(&mut agents, 0, 1, &p), Outcome::Defected);
    assert_eq!(agents[0].energy(), 249);
    assert_eq!(agents[1].energy(), 262);
    assert_eq!(agents[2].energy(), 256);
    assert_eq!(score(&agents[0], 11), Some(-7));
    assert_eq!(encounter_between(&mut agents, 2, 0, &p), Outcome::Cooperated);
    assert_eq!(agents[2].energy(), 255);
    assert_eq!(agents[0].energy(), 252);
    assert_eq!(score(&agents[0], 12), Some(3));
    assert_eq!(score(&agents[2], 10), Some(-1));
    assert_eq!(encounter_between(&mut agents, 1, 2, &p), Outcome::Rejected);
    assert_eq!(agents[1].energy(), 262);
    assert_eq!(agents[2].energy(), 255);
    assert_eq!(agents.len(), 3);
}

#[test]
fn agent_copy_is_independent() {
    let p = GameParams::standard();
    let mut a = tracker(0, true);
    a.borrow_from(1, &p);
    let copy = a.clone();
    a.borrow_from(1, &p);
    assert_eq!(copy.id(), 0);
    assert_eq!(copy.energy(), 259);
    assert_eq!(score(&copy, 1), Some(3));
    assert_eq!(a.energy(), 262);
    assert_eq!(score(&a, 1), Some(6));
}

#[test]
fn agent_within_a_limit() {
    let p = GameParams::standard();
    let mut a = Agent::new(0, -5, Strategy::Reputation(ReputationTracker::new(true)));
    assert!(a.within(4));
    assert!(!a.within(3));
    a.settle_loan(1, false, &p);
    assert_eq!(a.energy(), -12);
    assert!(a.within(11));
    assert!(!a.within(10));
    let top = Agent::new(1, i64::MIN, Strategy::Reputation(ReputationTracker::new(true)));
    assert!(top.within(i64::MAX));
    assert!(!top.within(i64::MAX - 1));
}
