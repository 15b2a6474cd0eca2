//! A repeated borrow/lend game between agents that follow pluggable strategies.
//!
//! Agents meet pairwise. The lender decides whether to grant a request, the
//! borrower decides whether to cooperate, and both gain or lose energy
//! according to a fixed table of payoffs. Agents whose energy is used up
//! leave the population at the end of a round.
//!
//! All quantities are whole energy units; a caller who needs fractions
//! picks a finer unit. Probabilities are parts per million.
//!
//! The contracts speak of models: what the game can tell of a strategy, an
//! agent or a population, with the state of random generators left out.
//! `simulation` says which populations a run can lead to, `laws`,
//! `determinism` and `identity` say what holds of every run.

pub mod params;
pub mod reputation;
pub mod random;
pub mod strategy;
pub mod agent;
pub mod report;
pub mod population;
pub mod simulation;
pub mod laws;
pub mod determinism;
pub mod identity;
