use lending_game::agent::{encounter_has_room, try_encounter, Agent};
use lending_game::params::{size_of, GameParams, Outcome};
use lending_game::random::{can_answer, RandomStrategy, PROBABILITY_SCALE};
use lending_game::reputation::ReputationTracker;
use lending_game::strategy::Strategy;

fn tracker(id: usize, energy: i64) -> Agent {
    Agent::new(id, energy, Strategy::Reputation(ReputationTracker::new(true)))
}

fn fixed(id: usize, energy: i64, accept: bool, coop: bool) -> Agent {
    let a = if accept { PROBABILITY_SCALE } else { 0 };
    let c = if coop { PROBABILITY_SCALE } else { 0 };
    Agent::new(id, energy, Strategy::Random(RandomStrategy::new(a, c, "fixed".to_string(), 0)))
}

fn coin(id: usize, energy: i64) -> Agent {
    Agent::new(
        id,
        energy,
        Strategy::Random(RandomStrategy::new(500_000, 500_000, "coin".to_string(), 0)),
    )
}

#[test]
fn size_of_a_payoff() {
    assert_eq!(size_of(0), 0);
    assert_eq!(size_of(7), 7);
    assert_eq!(size_of(-7), 7);
    assert_eq!(size_of(i64::MAX), 9_223_372_036_854_775_807);
    assert_eq!(size_of(i64::MIN), 9_223_372_036_854_775_808);
    assert_eq!(size_of(i64::MIN + 1), 9_223_372_036_854_775_807);
}

#[test]
fn answers_that_a_probability_allows() {
    assert!(!can_answer(0, true));
    assert!(can_answer(0, false));
    assert!(can_answer(1, true));
    assert!(can_answer(1, false));
    assert!(can_answer(PROBABILITY_SCALE - 1, false));
    assert!(can_answer(PROBABILITY_SCALE, true));
    assert!(!can_answer(PROBABILITY_SCALE, false));
    assert!(!can_answer(u32::MAX, false));
}

#[test]
fn answers_that_a_strategy_allows() {
    let p = GameParams::standard();
    let mut t = Strategy::Reputation(ReputationTracker::new(true));
    assert!(t.may_accept(1, true));
    assert!(!t.may_accept(1, false));
    assert!(t.may_cooperate(true));
    assert!(!t.may_cooperate(false));
    t.notify_coop_or_defect(1, false, &p);
    assert!(!t.may_accept(1, true));
    assert!(t.may_accept(1, false));
    assert!(t.may_accept(2, true));
    let coin = Strategy::Random(RandomStrategy::new(1, 999_999, "coin".to_string(), 0));
    assert!(coin.may_accept(1, true) && coin.may_accept(1, false));
    assert!(coin.may_cooperate(true) && coin.may_cooperate(false));
    let never = Strategy::Random(RandomStrategy::new(0, 0, "never".to_string(), 0));
    assert!(!never.may_accept(1, true) && never.may_accept(1, false));
    assert!(!never.may_cooperate(true) && never.may_cooperate(false));
}

#[test]
fn room_in_a_score() {
    let big = GameParams {
        borrower_defect_payout: 0,
        borrower_coop_payout: i64::MAX - 3,
        lender_defect_payout: 0,
        lender_coop_payout: 0,
    };
    let mut t = ReputationTracker::new(true);
    assert!(t.can_credit(1, i64::MAX));
    assert!(t.can_credit(1, i64::MIN));
    t.coop_or_defect(1, &big);
    assert_eq!(t.score(1), Some(i64::MAX - 3));
    assert!(t.can_credit(1, 3));
    assert!(!t.can_credit(1, 4));
    assert!(t.can_credit(1, i64::MIN));
    assert!(t.can_credit(2, 4));
    let s = Strategy::Reputation(t);
    assert!(s.can_credit(1, 3));
    assert!(!s.can_credit(1, 4));
    let r = Strategy::Random(RandomStrategy::new(0, 0, "r".to_string(), 0));
    assert!(r.can_credit(1, i64::MAX));
}

#[test]
fn room_in_an_energy() {
    let p = GameParams::standard();
    let high = tracker(0, i64::MAX - 2);
    assert!(!high.can_borrow(1, true, &p));
    assert!(!high.can_borrow(1, false, &p));
    assert!(high.can_lend(1, true, &p));
    assert!(high.can_lend(1, false, &p));
    let edge = tracker(0, i64::MAX - 3);
    assert!(edge.can_borrow(1, true, &p));
    assert!(!edge.can_borrow(1, false, &p));
    let low = tracker(0, i64::MIN + 6);
    assert!(low.can_lend(1, true, &p));
    assert!(!low.can_lend(1, false, &p));
    assert!(low.can_borrow(1, false, &p));
    let lowest = tracker(0, i64::MIN);
    assert!(!lowest.can_lend(1, true, &p));
}

#[test]
fn encounter_without_room_is_not_played() {
    let p = GameParams::standard();
    let mut lender = tracker(0, 256);
    let mut borrower = tracker(1, i64::MAX - 2);
    assert!(!encounter_has_room(&lender, &borrower, &p));
    assert_eq!(try_encounter(&mut lender, &mut borrower, &p), None);
    assert_eq!(lender.energy(), 256);
    assert_eq!(borrower.energy(), i64::MAX - 2);
    assert_eq!(lender.strategy().may_accept(1, true), true);
}

#[test]
fn encounter_with_room_is_played() {
    let p = GameParams::standard();
    let mut lender = tracker(0, 256);
    let mut borrower = tracker(1, i64::MAX - 3);
    assert!(encounter_has_room(&lender, &borrower, &p));
    assert_eq!(try_encounter(&mut lender, &mut borrower, &p), Some(Outcome::Cooperated));
    assert_eq!(lender.energy(), 255);
    assert_eq!(borrower.energy(), i64::MAX);
}

#[test]
fn room_is_asked_only_for_what_can_happen() {
    let p = GameParams::standard();
    // A lender that never accepts needs no room at all.
    let mut never = fixed(0, i64::MIN, false, false);
    let mut full = tracker(1, i64::MAX);
    assert!(encounter_has_room(&never, &full, &p));
    assert_eq!(try_encounter(&mut never, &mut full, &p), Some(Outcome::Rejected));
    assert_eq!(never.energy(), i64::MIN);
    assert_eq!(full.energy(), i64::MAX);
    // A borrower that always cooperates needs no room for the payoff of a
    // defection; one that may do either needs it.
    let lender = fixed(2, 0, true, true);
    assert!(encounter_has_room(&lender, &tracker(3, i64::MAX - 3), &p));
    assert!(!encounter_has_room(&lender, &coin(3, i64::MAX - 3), &p));
    assert!(encounter_has_room(&lender, &coin(3, i64::MAX - 6), &p));
    // A lender needs room to lose what a defecting borrower takes.
    let poor = fixed(4, i64::MIN + 6, true, true);
    assert!(encounter_has_room(&poor, &tracker(5, 0), &p));
    assert!(!encounter_has_room(&poor, &fixed(5, 0, true, false), &p));
}

#[test]
fn lender_that_will_reject_needs_no_room() {
    let p = GameParams::standard();
    let drop = GameParams {
        borrower_defect_payout: 0,
        borrower_coop_payout: 0,
        lender_defect_payout: i64::MIN,
        lender_coop_payout: 0,
    };
    // The score of agent 1 in the ledger of the lender is as low as a score
    // gets: nothing could be taken from it, but agent 1 is turned down.
    let mut ledger = ReputationTracker::new(true);
    ledger.notify_coop_or_defect(1, false, &drop);
    assert_eq!(ledger.score(1), Some(i64::MIN));
    assert!(!ledger.can_credit(1, -1));
    let mut lender = Agent::new(0, 0, Strategy::Reputation(ledger));
    let mut borrower = fixed(1, 0, true, false);
    assert!(encounter_has_room(&lender, &borrower, &p));
    assert_eq!(try_encounter(&mut lender, &mut borrower, &p), Some(Outcome::Rejected));
}
