//! An agent of the game, and the encounter of a lender with a borrower.

use crate::params::{GameParams, Outcome};
use crate::strategy::{Strategy, StrategyModel};
use vstd::prelude::*;

verus! {

/// What an agent is, as far as the game can tell: who it is, how much energy
/// it has left, and what its strategy knows.
pub struct AgentModel {
    pub id: usize,
    pub energy: i64,
    pub strategy: StrategyModel,
}

impl AgentModel {
    /// Whether the agent stays in the population when a round ends.
    pub open spec fn alive(self) -> bool {
        self.energy > 0
    }

    /// Whether the energy, and every score the strategy keeps, lies from
    /// `-limit - 1` up to `limit`.
    pub open spec fn bounded(self, limit: int) -> bool {
        &&& -limit - 1 <= self.energy <= limit
        &&& self.strategy.bounded(limit)
    }

    /// Whether `delta` can be added to the energy within the range of an
    /// energy.
    pub open spec fn can_gain(self, delta: i64) -> bool {
        i64::MIN <= self.energy + delta <= i64::MAX
    }

    /// The agent after the borrower `peer`, to whom it lent, decided `coop`:
    /// it has the lender's payoff, and its strategy has taken note.
    pub open spec fn after_lending(self, peer: usize, coop: bool, params: GameParams)
        -> AgentModel {
        AgentModel {
            id: self.id,
            energy: (self.energy + params.lender_payout(coop)) as i64,
            strategy: self.strategy.after_lending(peer, coop, params),
        }
    }

    /// The agent after it borrowed from `peer` and decided `coop`: it has
    /// the borrower's payoff, and its strategy has taken note.
    pub open spec fn after_borrowing(self, peer: usize, coop: bool, params: GameParams)
        -> AgentModel {
        AgentModel {
            id: self.id,
            energy: (self.energy + params.borrower_payout(coop)) as i64,
            strategy: self.strategy.after_borrowing(peer, params),
        }
    }

    /// Whether the agent can take the lender's part in a granted request of
    /// `peer` without leaving the range of an energy or a score.
    pub open spec fn can_lend(self, peer: usize, coop: bool, params: GameParams) -> bool {
        &&& self.can_gain(params.lender_payout(coop))
        &&& self.strategy.can_credit(peer, params.lender_payout(coop))
    }

    /// Whether the agent can take the borrower's part in a request that
    /// `peer` granted without leaving the range of an energy or a score.
    pub open spec fn can_borrow(self, peer: usize, coop: bool, params: GameParams) -> bool {
        &&& self.can_gain(params.borrower_payout(coop))
        &&& self.strategy.can_credit(peer, params.borrower_coop_payout)
    }
}

/// Whether an encounter of `lender` with `borrower` can end in `outcome`,
/// given what the two strategies are able to answer.
pub open spec fn possible(lender: AgentModel, borrower: AgentModel, outcome: Outcome) -> bool {
    match outcome {
        Outcome::Rejected => lender.strategy.may_accept(borrower.id, false),
        Outcome::Cooperated => lender.strategy.may_accept(borrower.id, true)
            && borrower.strategy.may_cooperate(true),
        Outcome::Defected => lender.strategy.may_accept(borrower.id, true)
            && borrower.strategy.may_cooperate(false),
    }
}

/// The lender after an encounter with the borrower `peer` that ended in
/// `outcome`. A lender who rejected is unchanged.
pub open spec fn lender_after(lender: AgentModel, peer: usize, outcome: Outcome, params: GameParams)
    -> AgentModel {
    match outcome {
        Outcome::Rejected => lender,
        Outcome::Cooperated => lender.after_lending(peer, true, params),
        Outcome::Defected => lender.after_lending(peer, false, params),
    }
}

/// The borrower after an encounter with the lender `peer` that ended in
/// `outcome`. A borrower who was rejected is unchanged.
pub open spec fn borrower_after(
    borrower: AgentModel,
    peer: usize,
    outcome: Outcome,
    params: GameParams,
) -> AgentModel {
    match outcome {
        Outcome::Rejected => borrower,
        Outcome::Cooperated => borrower.after_borrowing(peer, true, params),
        Outcome::Defected => borrower.after_borrowing(peer, false, params),
    }
}

/// Whether an encounter that ends in `outcome` keeps every energy and score
/// of the two agents within range.
pub open spec fn outcome_fits(
    lender: AgentModel,
    borrower: AgentModel,
    outcome: Outcome,
    params: GameParams,
) -> bool {
    match outcome {
        Outcome::Rejected => true,
        Outcome::Cooperated => lender.can_lend(borrower.id, true, params) && borrower.can_borrow(
            lender.id,
            true,
            params,
        ),
        Outcome::Defected => lender.can_lend(borrower.id, false, params) && borrower.can_borrow(
            lender.id,
            false,
            params,
        ),
    }
}

/// Whether an encounter of `lender` with `borrower` keeps every energy and
/// score within range, however it ends.
pub open spec fn encounter_fits(lender: AgentModel, borrower: AgentModel, params: GameParams)
    -> bool {
    &&& possible(lender, borrower, Outcome::Cooperated) ==> outcome_fits(
        lender,
        borrower,
        Outcome::Cooperated,
        params,
    )
    &&& possible(lender, borrower, Outcome::Defected) ==> outcome_fits(
        lender,
        borrower,
        Outcome::Defected,
        params,
    )
}

/// An encounter moves the energies and scores of the two agents by no more
/// than the largest payoff: where each lies within a limit of its own that
/// leaves room for one more payoff, the encounter stays within range
/// however it ends, and leaves each within its limit and that payoff.
pub proof fn lemma_encounter_bounded(
    lender: AgentModel,
    borrower: AgentModel,
    outcome: Outcome,
    params: GameParams,
    lender_limit: int,
    borrower_limit: int,
)
    requires
        lender.bounded(lender_limit),
        borrower.bounded(borrower_limit),
        lender_limit + params.magnitude() <= i64::MAX,
        borrower_limit + params.magnitude() <= i64::MAX,
    ensures
        outcome_fits(lender, borrower, outcome, params),
        encounter_fits(lender, borrower, params),
        lender_after(lender, borrower.id, outcome, params).bounded(
            lender_limit + params.magnitude(),
        ),
        borrower_after(borrower, lender.id, outcome, params).bounded(
            borrower_limit + params.magnitude(),
        ),
{
}

/// A participant of the game: a strategy, an energy and an identity.
pub struct Agent {
    strategy: Strategy,
    energy: i64,
    id: usize,
}

impl View for Agent {
    type V = AgentModel;

    closed spec fn view(&self) -> AgentModel {
        AgentModel { id: self.id, energy: self.energy, strategy: self.strategy@ }
    }
}

impl Agent {
    /// An agent with the given identity, energy and strategy.
    pub fn new(id: usize, energy: i64, strategy: Strategy) -> (a: Agent)
        ensures
            a@ == (AgentModel { id, energy, strategy: strategy@ }),
    {
        Agent { strategy, energy, id }
    }

    /// The identity of the agent.
    pub fn id(&self) -> (id: usize)
        ensures
            id == self@.id,
    {
        self.id
    }

    /// The energy the agent has left.
    pub fn energy(&self) -> (energy: i64)
        ensures
            energy == self@.energy,
    {
        self.energy
    }

    /// The strategy the agent follows.
    pub fn strategy(&self) -> (s: &Strategy)
        ensures
            s@ == self@.strategy,
    {
        &self.strategy
    }

    /// Whether the agent stays in the population when a round ends: it does
    /// while it has energy left.
    pub fn is_alive(&self) -> (alive: bool)
        ensures
            alive == self@.alive(),
    {
        self.energy > 0
    }

    /// Whether the energy, and every score the strategy keeps, lies from
    /// `-limit - 1` up to `limit`.
    pub fn within(&self, limit: i64) -> (ok: bool)
        requires
            limit >= 0,
        ensures
            ok == self@.bounded(limit as int),
    {
        -limit - 1 <= self.energy && self.energy <= limit && self.strategy.within(limit)
    }

    /// The label under which the agent is counted.
    pub fn get_type(&self) -> (label: String)
        ensures
            label@ == self@.strategy.label(),
    {
        self.strategy.get_type()
    }

    /// Whether the agent can take the lender's part in a granted request of
    /// `peer` without leaving the range of an energy or a score.
    pub fn can_lend(&self, peer: usize, coop: bool, params: &GameParams) -> (ok: bool)
        ensures
            ok == self@.can_lend(peer, coop, *params),
    {
        let delta: i64 = params.lender_delta(coop);
        self.energy.checked_add(delta).is_some() && self.strategy.can_credit(peer, delta)
    }

    /// Whether the agent can take the borrower's part in a request that
    /// `peer` granted without leaving the range of an energy or a score.
    pub fn can_borrow(&self, peer: usize, coop: bool, params: &GameParams) -> (ok: bool)
        ensures
            ok == self@.can_borrow(peer, coop, *params),
    {
        self.energy.checked_add(params.borrower_delta(coop)).is_some() && self.strategy.can_credit(
            peer,
            params.borrower_coop_payout,
        )
    }

    /// Asks the agent, as lender, whether it grants a request of `borrower`.
    pub fn decide_request(&mut self, borrower: usize) -> (accept: bool)
        ensures
            final(self)@ == old(self)@,
            old(self)@.strategy.may_accept(borrower, accept),
    {
        self.strategy.accept_or_reject_request(borrower)
    }

    /// Tells the agent that `lender` turned its request down. The agent is
    /// unchanged.
    pub fn take_rejection(&mut self, lender: usize)
        ensures
            final(self)@ == old(self)@,
    {
        self.strategy.notify_about_rejection(lender);
    }

    /// Lets the agent use what `lender` granted: its strategy decides
    /// whether to cooperate, and the agent takes the borrower's payoff.
    pub fn borrow_from(&mut self, lender: usize, params: &GameParams) -> (coop: bool)
        requires
            old(self)@.strategy.may_cooperate(true) ==> old(self)@.can_borrow(
                lender,
                true,
                *params,
            ),
            old(self)@.strategy.may_cooperate(false) ==> old(self)@.can_borrow(
                lender,
                false,
                *params,
            ),
        ensures
            old(self)@.strategy.may_cooperate(coop),
            final(self)@ == old(self)@.after_borrowing(lender, coop, *params),
    {
        let coop = self.strategy.coop_or_defect(lender, params);
        self.energy = self.energy + params.borrower_delta(coop);
        coop
    }

    /// Tells the agent, which lent to `borrower`, what the borrower decided:
    /// its strategy takes note, and the agent takes the lender's payoff.
    pub fn settle_loan(&mut self, borrower: usize, coop: bool, params: &GameParams)
        requires
            old(self)@.can_lend(borrower, coop, *params),
        ensures
            final(self)@ == old(self)@.after_lending(borrower, coop, *params),
    {
        self.strategy.notify_coop_or_defect(borrower, coop, params);
        self.energy = self.energy + params.lender_delta(coop);
    }
}

impl Clone for Agent {
    /// An independent copy of the agent.
    fn clone(&self) -> (copy: Agent)
        ensures
            copy@ == self@,
    {
        Agent { strategy: self.strategy.clone(), energy: self.energy, id: self.id }
    }
}

/// Plays one encounter. The lender decides on the request of the borrower.
/// If it rejects, the borrower is told and nothing else happens. If it
/// accepts, the borrower decides whether to cooperate, the lender is told,
/// and both take their payoff for that decision.
pub fn encounter(lender: &mut Agent, borrower: &mut Agent, params: &GameParams) -> (outcome:
    Outcome)
    requires
        encounter_fits(old(lender)@, old(borrower)@, *params),
    ensures
        possible(old(lender)@, old(borrower)@, outcome),
        final(lender)@ == lender_after(old(lender)@, old(borrower)@.id, outcome, *params),
        final(borrower)@ == borrower_after(old(borrower)@, old(lender)@.id, outcome, *params),
{
    let lender_id = lender.id();
    let borrower_id = borrower.id();
    if lender.decide_request(borrower_id) {
        let coop = borrower.borrow_from(lender_id, params);
        lender.settle_loan(borrower_id, coop, params);
        if coop {
            Outcome::Cooperated
        } else {
            Outcome::Defected
        }
    } else {
        borrower.take_rejection(lender_id);
        Outcome::Rejected
    }
}

/// Whether an encounter of `lender` with `borrower` keeps every energy and
/// score within range, however it ends.
pub fn encounter_has_room(lender: &Agent, borrower: &Agent, params: &GameParams) -> (ok: bool)
    ensures
        ok == encounter_fits(lender@, borrower@, *params),
{
    if !lender.strategy.may_accept(borrower.id, true) {
        return true;
    }
    if borrower.strategy.may_cooperate(true) && !(lender.can_lend(borrower.id, true, params)
        && borrower.can_borrow(lender.id, true, params)) {
        return false;
    }
    if borrower.strategy.may_cooperate(false) && !(lender.can_lend(borrower.id, false, params)
        && borrower.can_borrow(lender.id, false, params)) {
        return false;
    }
    true
}

/// Plays one encounter where that is sure to stay within range, and returns
/// its outcome; otherwise leaves both agents as they are and returns `None`.
pub fn try_encounter(lender: &mut Agent, borrower: &mut Agent, params: &GameParams) -> (outcome:
    Option<Outcome>)
    ensures
        outcome is Some == encounter_fits(old(lender)@, old(borrower)@, *params),
        outcome is None ==> final(lender)@ == old(lender)@ && final(borrower)@ == old(borrower)@,
        outcome matches Some(o) ==> {
            &&& possible(old(lender)@, old(borrower)@, o)
            &&& final(lender)@ == lender_after(old(lender)@, old(borrower)@.id, o, *params)
            &&& final(borrower)@ == borrower_after(old(borrower)@, old(lender)@.id, o, *params)
        },
{
    if encounter_has_room(lender, borrower, params) {
        Some(encounter(lender, borrower, params))
    } else {
        None
    }
}

} // verus!
