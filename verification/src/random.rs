//! The strategy that decides by chance, and the generator it draws from.

use rand::rngs::StdRng;
use rand::Rng;
use rand::SeedableRng;
use vstd::prelude::*;

verus! {

/// The number of parts that make up certainty: a probability is a number of
/// parts out of this many.
pub const PROBABILITY_SCALE: u32 = 1_000_000;

/// The generator of `rand` that a randomized strategy owns. Nothing is known
/// of its state.
#[verifier::external_type_specification]
#[verifier::external_body]
pub struct ExStdRng(rand::rngs::StdRng);

/// Calls `StdRng::seed_from_u64` of `rand`, which builds a generator from
/// `seed`. Nothing is claimed of the generator.
#[verifier::external_body]
fn seeded_generator(seed: u64) -> (rng: StdRng) {
    StdRng::seed_from_u64(seed)
}

/// Calls `Rng::gen_range` of `rand` on the range from zero up to, and not
/// including, `bound`. The call panics on an empty range, which `requires`
/// leaves out. It claims that the number drawn lies in that range, and
/// nothing of which number it is.
#[verifier::external_body]
fn draw_below(rng: &mut StdRng, bound: u32) -> (draw: u32)
    requires
        bound > 0,
    ensures
        draw < bound,
{
    rng.gen_range(0..bound)
}

/// Calls `clone` on a generator of `rand`, which copies its state. Nothing
/// is claimed of the copy.
#[verifier::external_body]
fn copied_generator(rng: &StdRng) -> (copy: StdRng) {
    rng.clone()
}

/// Whether a draw below `PROBABILITY_SCALE` falls among the first
/// `probability` parts.
pub open spec fn favours(draw: u32, probability: u32) -> bool {
    draw < probability
}

/// Whether a strategy that says yes with `probability` parts out of
/// `PROBABILITY_SCALE` can give `answer`: with no part it never says yes,
/// with all parts it always does.
pub open spec fn may_answer(probability: u32, answer: bool) -> bool {
    &&& probability == 0 ==> !answer
    &&& probability >= PROBABILITY_SCALE ==> answer
}

/// Turns a draw into a decision: yes if and only if the draw falls among the
/// first `probability` parts.
pub fn decide(draw: u32, probability: u32) -> (answer: bool)
    ensures
        answer == favours(draw, probability),
        draw < PROBABILITY_SCALE ==> may_answer(probability, answer),
{
    draw < probability
}

/// Whether a strategy that says yes with `probability` parts out of
/// `PROBABILITY_SCALE` can give `answer`.
pub fn can_answer(probability: u32, answer: bool) -> (ok: bool)
    ensures
        ok == may_answer(probability, answer),
{
    if answer {
        probability != 0
    } else {
        probability < PROBABILITY_SCALE
    }
}

/// What sets one randomized strategy apart from another: its two
/// probabilities and its label. The state of its generator is left out.
pub struct RandomModel {
    pub accept_prob: u32,
    pub coop_prob: u32,
    pub label: Seq<char>,
}

/// A strategy without memory: it grants a request with one fixed probability
/// and cooperates with another, each a number of parts out of
/// `PROBABILITY_SCALE`. A probability at or above the scale is certainty.
pub struct RandomStrategy {
    rng: StdRng,
    accept_prob: u32,
    coop_prob: u32,
    label: String,
}

impl View for RandomStrategy {
    type V = RandomModel;

    closed spec fn view(&self) -> RandomModel {
        RandomModel {
            accept_prob: self.accept_prob,
            coop_prob: self.coop_prob,
            label: self.label@,
        }
    }
}

impl RandomStrategy {
    /// A strategy with the given probabilities and label, whose generator
    /// is built from `seed` and shared with nobody.
    pub fn new(accept_prob: u32, coop_prob: u32, label: String, seed: u64) -> (s:
        RandomStrategy)
        ensures
            s@ == (RandomModel { accept_prob, coop_prob, label: label@ }),
    {
        RandomStrategy { rng: seeded_generator(seed), accept_prob, coop_prob, label }
    }

    /// The parts out of `PROBABILITY_SCALE` with which a request is granted.
    pub fn accept_prob(&self) -> (p: u32)
        ensures
            p == self@.accept_prob,
    {
        self.accept_prob
    }

    /// The parts out of `PROBABILITY_SCALE` with which the strategy
    /// cooperates.
    pub fn coop_prob(&self) -> (p: u32)
        ensures
            p == self@.coop_prob,
    {
        self.coop_prob
    }

    /// Decides as lender on a request by a fresh draw, whoever asks. The
    /// probabilities and the label stay as they are.
    pub fn accept_or_reject_request(&mut self, borrower: usize) -> (accept: bool)
        ensures
            final(self)@ == old(self)@,
            may_answer(old(self)@.accept_prob, accept),
    {
        let draw: u32 = draw_below(&mut self.rng, PROBABILITY_SCALE);
        decide(draw, self.accept_prob)
    }

    /// Takes note that `lender` turned a request down. Nothing is kept.
    pub fn notify_about_rejection(&mut self, lender: usize)
        ensures
            final(self)@ == old(self)@,
    {
    }

    /// Decides as borrower by a fresh draw, whoever lent. The probabilities
    /// and the label stay as they are.
    pub fn coop_or_defect(&mut self, lender: usize) -> (coop: bool)
        ensures
            final(self)@ == old(self)@,
            may_answer(old(self)@.coop_prob, coop),
    {
        let draw: u32 = draw_below(&mut self.rng, PROBABILITY_SCALE);
        decide(draw, self.coop_prob)
    }

    /// Takes note of what `borrower` did. Nothing is kept.
    pub fn notify_coop_or_defect(&mut self, borrower: usize, coop: bool)
        ensures
            final(self)@ == old(self)@,
    {
    }

    /// The label under which strategies of this configuration are counted.
    pub fn get_type(&self) -> (label: String)
        ensures
            label@ == self@.label,
    {
        self.label.clone()
    }
}

impl Clone for RandomStrategy {
    /// An independent copy with the same probabilities and label, and with a
    /// generator of its own that starts from the state of this one.
    fn clone(&self) -> (copy: RandomStrategy)
        ensures
            copy@ == self@,
    {
        RandomStrategy {
            rng: copied_generator(&self.rng),
            accept_prob: self.accept_prob,
            coop_prob: self.coop_prob,
            label: self.label.clone(),
        }
    }
}

} // verus!
