//! The payoff table of the game and the outcome of a single encounter.

use vstd::prelude::*;

verus! {

/// The lender granted the request.
pub const ACCEPT: bool = true;

/// The lender turned the request down.
pub const REJECT: bool = false;

/// The borrower gave back what was lent.
pub const COOP: bool = true;

/// The borrower kept what was lent.
pub const DEFECT: bool = false;

/// The energy every agent starts with.
pub const INITIAL_ENERGY: i64 = 256;

/// How one encounter between a lender and a borrower ended.
#[derive(Clone, Copy, Debug, PartialEq, Eq, Structural)]
pub enum Outcome {
    /// The lender turned the request down; nothing changed hands.
    Rejected,
    /// The lender granted the request and the borrower cooperated.
    Cooperated,
    /// The lender granted the request and the borrower defected.
    Defected,
}

/// The four payoffs of the game, in energy units. Each may be negative.
#[derive(Clone, Copy, Debug, PartialEq, Eq, Structural)]
pub struct GameParams {
    /// What a borrower gains by defecting.
    pub borrower_defect_payout: i64,
    /// What a borrower gains by cooperating.
    pub borrower_coop_payout: i64,
    /// What a lender gains when the borrower defects.
    pub lender_defect_payout: i64,
    /// What a lender gains when the borrower cooperates.
    pub lender_coop_payout: i64,
}

/// The absolute value of `x`.
pub open spec fn abs(x: int) -> int {
    if x < 0 {
        -x
    } else {
        x
    }
}

/// The larger of `x` and `y`.
pub open spec fn larger(x: int, y: int) -> int {
    if x < y {
        y
    } else {
        x
    }
}

/// The absolute value of a payoff.
pub fn size_of(payoff: i64) -> (size: u64)
    ensures
        size == abs(payoff as int),
{
    if payoff >= 0 {
        payoff as u64
    } else if payoff == i64::MIN {
        0x8000_0000_0000_0000
    } else {
        (-payoff) as u64
    }
}

impl GameParams {
    /// The payoff of the lender after a granted request.
    pub open spec fn lender_payout(self, coop: bool) -> i64 {
        if coop {
            self.lender_coop_payout
        } else {
            self.lender_defect_payout
        }
    }

    /// The payoff of the borrower after a granted request.
    pub open spec fn borrower_payout(self, coop: bool) -> i64 {
        if coop {
            self.borrower_coop_payout
        } else {
            self.borrower_defect_payout
        }
    }

    /// The largest amount by which one encounter can move an energy or a
    /// reputation score, in either direction.
    pub open spec fn magnitude(self) -> int {
        larger(
            larger(abs(self.borrower_defect_payout as int), abs(self.borrower_coop_payout as int)),
            larger(abs(self.lender_defect_payout as int), abs(self.lender_coop_payout as int)),
        )
    }

    /// The payoffs of the device-lending game: a defecting borrower steals
    /// the device (+6) and the lender loses it (-7); a cooperating borrower
    /// uses it (+3) at a small cost to the lender (-1).
    pub fn standard() -> (p: GameParams)
        ensures
            p.borrower_defect_payout == 6,
            p.borrower_coop_payout == 3,
            p.lender_defect_payout == -7,
            p.lender_coop_payout == -1,
    {
        GameParams {
            borrower_defect_payout: 6,
            borrower_coop_payout: 3,
            lender_defect_payout: -7,
            lender_coop_payout: -1,
        }
    }

    /// The largest amount by which one encounter can move an energy or a
    /// reputation score, in either direction.
    pub fn largest_payoff(&self) -> (m: u64)
        ensures
            m == self.magnitude(),
    {
        let a = size_of(self.borrower_defect_payout);
        let b = size_of(self.borrower_coop_payout);
        let c = size_of(self.lender_defect_payout);
        let d = size_of(self.lender_coop_payout);
        let ab = if a < b {
            b
        } else {
            a
        };
        let cd = if c < d {
            d
        } else {
            c
        };
        if ab < cd {
            cd
        } else {
            ab
        }
    }

    /// The payoff of the lender after a granted request.
    pub fn lender_delta(&self, coop: bool) -> (d: i64)
        ensures
            d == self.lender_payout(coop),
    {
        if coop {
            self.lender_coop_payout
        } else {
            self.lender_defect_payout
        }
    }

    /// The payoff of the borrower after a granted request.
    pub fn borrower_delta(&self, coop: bool) -> (d: i64)
        ensures
            d == self.borrower_payout(coop),
    {
        if coop {
            self.borrower_coop_payout
        } else {
            self.borrower_defect_payout
        }
    }
}

} // verus!
