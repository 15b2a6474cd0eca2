//! The behaviours an agent can follow, behind one uniform set of calls.

use crate::params::GameParams;
use crate::random::{can_answer, may_answer, RandomModel, RandomStrategy};
use crate::reputation::{tracker_label, ReputationTracker, TrackerModel};
use vstd::prelude::*;

verus! {

/// What a strategy is, as far as the game can tell.
pub enum StrategyModel {
    Reputation(TrackerModel),
    Random(RandomModel),
}

impl StrategyModel {
    /// Whether the strategy, asked as lender by `peer`, can give the answer
    /// `accept`. A tracker has one answer; a randomized strategy has two,
    /// unless its probability is none or all.
    pub open spec fn may_accept(self, peer: usize, accept: bool) -> bool {
        match self {
            StrategyModel::Reputation(t) => accept == t.accepts(peer),
            StrategyModel::Random(r) => may_answer(r.accept_prob, accept),
        }
    }

    /// Whether the strategy, having borrowed, can decide `coop`. A tracker
    /// always cooperates.
    pub open spec fn may_cooperate(self, coop: bool) -> bool {
        match self {
            StrategyModel::Reputation(t) => coop,
            StrategyModel::Random(r) => may_answer(r.coop_prob, coop),
        }
    }

    /// Whether `delta` can be booked to the score of `peer`. A strategy
    /// without a ledger books nothing, so it always can.
    pub open spec fn can_credit(self, peer: usize, delta: i64) -> bool {
        match self {
            StrategyModel::Reputation(t) => t.can_credit(peer, delta),
            StrategyModel::Random(r) => true,
        }
    }

    /// The strategy after `delta` was booked to the score of `peer`. A
    /// strategy without a ledger stays as it is.
    pub open spec fn credited(self, peer: usize, delta: i64) -> StrategyModel {
        match self {
            StrategyModel::Reputation(t) => StrategyModel::Reputation(t.credited(peer, delta)),
            StrategyModel::Random(r) => self,
        }
    }

    /// The strategy after it borrowed from `peer`: a tracker has booked its
    /// gain to the credit of `peer`, whatever it decided.
    pub open spec fn after_borrowing(self, peer: usize, params: GameParams) -> StrategyModel {
        self.credited(peer, params.borrower_coop_payout)
    }

    /// The strategy after it lent to `peer`, who decided `coop`.
    pub open spec fn after_lending(self, peer: usize, coop: bool, params: GameParams)
        -> StrategyModel {
        self.credited(peer, params.lender_payout(coop))
    }

    /// Whether every score the strategy keeps lies from `-limit - 1` up to
    /// `limit`.
    pub open spec fn bounded(self, limit: int) -> bool {
        match self {
            StrategyModel::Reputation(t) => t.bounded(limit),
            StrategyModel::Random(r) => true,
        }
    }

    /// Whether the strategy has one answer to every question, so that no
    /// draw decides anything.
    pub open spec fn deterministic(self) -> bool {
        match self {
            StrategyModel::Reputation(t) => true,
            StrategyModel::Random(r) => {
                &&& r.accept_prob == 0 || r.accept_prob >= crate::random::PROBABILITY_SCALE
                &&& r.coop_prob == 0 || r.coop_prob >= crate::random::PROBABILITY_SCALE
            },
        }
    }

    /// The label under which the strategy is counted.
    pub open spec fn label(self) -> Seq<char> {
        match self {
            StrategyModel::Reputation(t) => tracker_label(),
            StrategyModel::Random(r) => r.label,
        }
    }
}

/// A behaviour that an agent follows as lender and as borrower.
pub enum Strategy {
    /// Lends according to a ledger of past dealings; always cooperates.
    Reputation(ReputationTracker),
    /// Lends and cooperates by chance.
    Random(RandomStrategy),
}

impl View for Strategy {
    type V = StrategyModel;

    open spec fn view(&self) -> StrategyModel {
        match self {
            Strategy::Reputation(t) => StrategyModel::Reputation(t@),
            Strategy::Random(r) => StrategyModel::Random(r@),
        }
    }
}

impl Strategy {
    /// Decides as lender on a request of `borrower`. The decision leaves
    /// the strategy as it was, but for the state of a generator.
    pub fn accept_or_reject_request(&mut self, borrower: usize) -> (accept: bool)
        ensures
            final(self)@ == old(self)@,
            old(self)@.may_accept(borrower, accept),
    {
        match self {
            Strategy::Reputation(t) => t.accept_or_reject_request(borrower),
            Strategy::Random(r) => r.accept_or_reject_request(borrower),
        }
    }

    /// Tells the strategy, which asked as borrower, that `lender` turned the
    /// request down. No strategy keeps anything of it.
    pub fn notify_about_rejection(&mut self, lender: usize)
        ensures
            final(self)@ == old(self)@,
    {
        match self {
            Strategy::Reputation(t) => t.notify_about_rejection(lender),
            Strategy::Random(r) => r.notify_about_rejection(lender),
        }
    }

    /// Decides as borrower what to do with what `lender` granted. A tracker
    /// books its gain to the credit of `lender`.
    pub fn coop_or_defect(&mut self, lender: usize, params: &GameParams) -> (coop: bool)
        requires
            old(self)@.can_credit(lender, params.borrower_coop_payout),
        ensures
            old(self)@.may_cooperate(coop),
            final(self)@ == old(self)@.after_borrowing(lender, *params),
    {
        match self {
            Strategy::Reputation(t) => t.coop_or_defect(lender, params),
            Strategy::Random(r) => r.coop_or_defect(lender),
        }
    }

    /// Tells the strategy, which lent, what `borrower` decided. A tracker
    /// books the resulting gain or loss to the score of `borrower`.
    pub fn notify_coop_or_defect(&mut self, borrower: usize, coop: bool, params: &GameParams)
        requires
            old(self)@.can_credit(borrower, params.lender_payout(coop)),
        ensures
            final(self)@ == old(self)@.after_lending(borrower, coop, *params),
    {
        match self {
            Strategy::Reputation(t) => t.notify_coop_or_defect(borrower, coop, params),
            Strategy::Random(r) => r.notify_coop_or_defect(borrower, coop),
        }
    }

    /// Whether the strategy, asked as lender by `peer`, can give the answer
    /// `accept`.
    pub fn may_accept(&self, peer: usize, accept: bool) -> (ok: bool)
        ensures
            ok == self@.may_accept(peer, accept),
    {
        match self {
            Strategy::Reputation(t) => accept == t.accept_or_reject_request(peer),
            Strategy::Random(r) => can_answer(r.accept_prob(), accept),
        }
    }

    /// Whether the strategy, having borrowed, can decide `coop`.
    pub fn may_cooperate(&self, coop: bool) -> (ok: bool)
        ensures
            ok == self@.may_cooperate(coop),
    {
        match self {
            Strategy::Reputation(t) => coop,
            Strategy::Random(r) => can_answer(r.coop_prob(), coop),
        }
    }

    /// Whether `delta` can be booked to the score of `peer` within the
    /// range of a score.
    pub fn can_credit(&self, peer: usize, delta: i64) -> (ok: bool)
        ensures
            ok == self@.can_credit(peer, delta),
    {
        match self {
            Strategy::Reputation(t) => t.can_credit(peer, delta),
            Strategy::Random(r) => true,
        }
    }

    /// Whether every score the strategy keeps lies from `-limit - 1` up to
    /// `limit`.
    pub fn within(&self, limit: i64) -> (ok: bool)
        requires
            limit >= 0,
        ensures
            ok == self@.bounded(limit as int),
    {
        match self {
            Strategy::Reputation(t) => t.within(limit),
            Strategy::Random(r) => true,
        }
    }

    /// The label under which the strategy is counted.
    pub fn get_type(&self) -> (label: String)
        ensures
            label@ == self@.label(),
    {
        match self {
            Strategy::Reputation(t) => t.get_type(),
            Strategy::Random(r) => r.get_type(),
        }
    }
}

impl Clone for Strategy {
    /// An independent copy of the strategy: the same policy, and the same
    /// ledger where it keeps one.
    fn clone(&self) -> (copy: Strategy)
        ensures
            copy@ == self@,
    {
        match self {
            Strategy::Reputation(t) => Strategy::Reputation(t.clone()),
            Strategy::Random(r) => Strategy::Random(r.clone()),
        }
    }
}

} // verus!
