//! The strategy that keeps a ledger of how each peer has treated it.

use crate::params::{GameParams, COOP};
use std::collections::HashMap;
use vstd::prelude::*;
use vstd::std_specs::iter::IteratorSpec;

verus! {

broadcast use vstd::std_specs::hash::group_hash_axioms;

/// What a reputation tracker knows: a score for each peer it has dealt
/// with, and whether it trusts a peer of whom it knows nothing good or bad.
pub struct TrackerModel {
    pub scores: Map<usize, i64>,
    pub optimistic: bool,
}

impl TrackerModel {
    /// The ledger of a tracker that has met nobody.
    pub open spec fn fresh(optimistic: bool) -> TrackerModel {
        TrackerModel { scores: Map::empty(), optimistic }
    }

    /// The standing of `peer`: its recorded score, or zero where none is
    /// recorded.
    pub open spec fn score_of(self, peer: usize) -> int {
        if self.scores.contains_key(peer) {
            self.scores[peer] as int
        } else {
            0
        }
    }

    /// Whether a request of `peer` is granted.
    pub open spec fn accepts(self, peer: usize) -> bool {
        if self.scores.contains_key(peer) {
            self.scores[peer] > 0 || (self.scores[peer] == 0 && self.optimistic)
        } else {
            self.optimistic
        }
    }

    /// Whether `delta` can be added to the score of `peer` within the range
    /// of a score.
    pub open spec fn can_credit(self, peer: usize, delta: i64) -> bool {
        i64::MIN <= self.score_of(peer) + delta <= i64::MAX
    }

    /// The ledger after `delta` was added to the score of `peer`. A peer
    /// without a score gets `delta` as its first one.
    pub open spec fn credited(self, peer: usize, delta: i64) -> TrackerModel {
        TrackerModel {
            scores: self.scores.insert(peer, (self.score_of(peer) + delta) as i64),
            optimistic: self.optimistic,
        }
    }

    /// Whether every recorded score lies within `limit` of zero, counted as
    /// the range of a machine integer is: from `-limit - 1` up to `limit`.
    pub open spec fn bounded(self, limit: int) -> bool {
        forall|peer: usize| #[trigger]
            self.scores.contains_key(peer) ==> -limit - 1 <= self.scores[peer] <= limit
    }
}

/// A strategy that lends to those who have done it more good than harm, and
/// that always gives back what it borrowed.
pub struct ReputationTracker {
    reputations: HashMap<usize, i64>,
    optimistic: bool,
}

impl View for ReputationTracker {
    type V = TrackerModel;

    closed spec fn view(&self) -> TrackerModel {
        TrackerModel { scores: self.reputations@, optimistic: self.optimistic }
    }
}

impl ReputationTracker {
    /// A tracker that has met nobody. An optimistic one lends to strangers.
    pub fn new(optimistic: bool) -> (t: ReputationTracker)
        ensures
            t@ == TrackerModel::fresh(optimistic),
    {
        ReputationTracker { reputations: HashMap::new(), optimistic }
    }

    /// Whether this tracker lends to strangers.
    pub fn is_optimistic(&self) -> (b: bool)
        ensures
            b == self@.optimistic,
    {
        self.optimistic
    }

    /// The score recorded for `peer`, if there is one.
    pub fn score(&self, peer: usize) -> (s: Option<i64>)
        ensures
            s matches Some(v) ==> self@.scores.contains_key(peer) && self@.scores[peer] == v,
            s is None ==> !self@.scores.contains_key(peer),
    {
        match self.reputations.get(&peer) {
            Some(r) => Some(*r),
            None => None,
        }
    }

    /// Decides as lender on a request of `borrower`: a peer with a positive
    /// score is served, one with a negative score is not, and one with a
    /// score of zero or with none is served by an optimistic tracker only.
    pub fn accept_or_reject_request(&self, borrower: usize) -> (accept: bool)
        ensures
            accept == self@.accepts(borrower),
    {
        match self.reputations.get(&borrower) {
            Some(r) => *r > 0 || (*r == 0 && self.optimistic),
            None => self.optimistic,
        }
    }

    /// Whether `delta` can be added to the score of `peer` within the range
    /// of a score.
    pub fn can_credit(&self, peer: usize, delta: i64) -> (ok: bool)
        ensures
            ok == self@.can_credit(peer, delta),
    {
        let current: i64 = match self.reputations.get(&peer) {
            Some(r) => *r,
            None => 0,
        };
        current.checked_add(delta).is_some()
    }

    /// Takes note that `lender` turned a request down. The ledger stays as
    /// it is.
    pub fn notify_about_rejection(&mut self, lender: usize)
        ensures
            final(self)@ == old(self)@,
    {
    }

    /// Adds `delta` to the score of `peer`.
    fn credit(&mut self, peer: usize, delta: i64)
        requires
            old(self)@.can_credit(peer, delta),
        ensures
            final(self)@ == old(self)@.credited(peer, delta),
    {
        let current: i64 = match self.reputations.get(&peer) {
            Some(r) => *r,
            None => 0,
        };
        self.reputations.insert(peer, current + delta);
    }

    /// Decides as borrower what to do with what `lender` granted: it always
    /// cooperates, and books its gain to the credit of `lender`.
    pub fn coop_or_defect(&mut self, lender: usize, params: &GameParams) -> (coop: bool)
        requires
            old(self)@.can_credit(lender, params.borrower_coop_payout),
        ensures
            coop == COOP,
            final(self)@ == old(self)@.credited(lender, params.borrower_coop_payout),
    {
        self.credit(lender, params.borrower_coop_payout);
        COOP
    }

    /// Takes note, as lender, of what `borrower` did with what it was
    /// granted, and books the resulting gain or loss to the score of
    /// `borrower`.
    pub fn notify_coop_or_defect(&mut self, borrower: usize, coop: bool, params: &GameParams)
        requires
            old(self)@.can_credit(borrower, params.lender_payout(coop)),
        ensures
            final(self)@ == old(self)@.credited(borrower, params.lender_payout(coop)),
    {
        let penalty: i64 = params.lender_delta(coop);
        self.credit(borrower, penalty);
    }

    /// Whether every recorded score lies from `-limit - 1` up to `limit`.
    pub fn within(&self, limit: i64) -> (ok: bool)
        requires
            limit >= 0,
        ensures
            ok == self@.bounded(limit as int),
    {
        let ghost seen = self.reputations.values().remaining();
        let mut ok = true;
        for score in it: self.reputations.values()
            invariant
                limit >= 0,
                it.seq() == seen,
                ok == (forall|i: int|
                    0 <= i < it.index() ==> -limit - 1 <= *(#[trigger] seen[i]) <= limit),
        {
            if *score > limit || *score < -limit - 1 {
                ok = false;
            }
        }
        proof {
            assert(seen.unref().to_set() == self.reputations@.values());
            if ok {
                assert forall|peer: usize| #[trigger]
                    self.reputations@.contains_key(peer) implies -limit - 1
                    <= self.reputations@[peer] <= limit by {
                    let v = self.reputations@[peer];
                    assert(self.reputations@.values().contains(v));
                    assert(seen.unref().contains(v));
                    let i = choose|i: int| 0 <= i < seen.unref().len() && seen.unref()[i] == v;
                    assert(*seen[i] == v);
                }
            } else {
                let i = choose|i: int|
                    0 <= i < seen.len() && !(-limit - 1 <= *(#[trigger] seen[i]) <= limit);
                let v = *seen[i];
                assert(seen.unref()[i] == v);
                assert(seen.unref().to_set().contains(v));
                assert(self.reputations@.values().contains(v));
                let peer = choose|peer: usize| #[trigger]
                    self.reputations@.contains_key(peer) && self.reputations@[peer] == v;
                assert(self@.scores.contains_key(peer) && self@.scores[peer] == v);
            }
        }
        ok
    }

    /// The label under which trackers are counted.
    pub fn get_type(&self) -> (label: String)
        ensures
            label@ == tracker_label(),
    {
        "reputation tracker".to_owned()
    }
}

impl Clone for ReputationTracker {
    /// An independent copy with the same ledger.
    fn clone(&self) -> (copy: ReputationTracker)
        ensures
            copy@ == self@,
    {
        ReputationTracker { reputations: self.reputations.clone(), optimistic: self.optimistic }
    }
}

/// The label of every reputation tracker.
pub open spec fn tracker_label() -> Seq<char> {
    "reputation tracker"@
}

} // verus!
