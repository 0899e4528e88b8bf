//! Governance proposals and their vote tallies.
//!
//! A proposal comes into being with its first vote and is never removed.
//! Every call casts one vote: the registry does not ask who votes, so one
//! voter may vote any number of times.

use std::collections::HashMap;
use vstd::prelude::*;

verus! {

broadcast use vstd::std_specs::hash::group_hash_axioms;

/// A proposal with the votes cast on it so far.
#[derive(Clone, Copy, Debug, PartialEq, Eq, Structural)]
pub struct Proposal {
    pub id: u128,
    pub votes_for: u128,
    pub votes_against: u128,
}

/// The tallies of proposal `id`: zero on both sides before its first vote.
pub open spec fn tally_in(proposals: Map<u128, Proposal>, id: u128) -> Proposal {
    if proposals.contains_key(id) {
        proposals[id]
    } else {
        Proposal { id, votes_for: 0, votes_against: 0 }
    }
}

/// Whether one more vote on proposal `id`, on the side chosen, can still be
/// counted: whether that tally stands below the largest representable count.
pub open spec fn vote_fits(proposals: Map<u128, Proposal>, id: u128, in_favor: bool) -> bool {
    if in_favor {
        tally_in(proposals, id).votes_for < u128::MAX
    } else {
        tally_in(proposals, id).votes_against < u128::MAX
    }
}

/// The proposals after one vote on proposal `id`: the tally of the side
/// chosen is raised by exactly one, and nothing else changes.
pub open spec fn voted(proposals: Map<u128, Proposal>, id: u128, in_favor: bool) -> Map<
    u128,
    Proposal,
> {
    let before = tally_in(proposals, id);
    if in_favor {
        proposals.insert(id, Proposal { votes_for: (before.votes_for + 1) as u128, ..before })
    } else {
        proposals.insert(
            id,
            Proposal { votes_against: (before.votes_against + 1) as u128, ..before },
        )
    }
}

/// The proposals that have been voted on.
pub struct ProposalRegistry {
    proposals: HashMap<u128, Proposal>,
}

impl View for ProposalRegistry {
    type V = Map<u128, Proposal>;

    closed spec fn view(&self) -> Map<u128, Proposal> {
        self.proposals@
    }
}

impl ProposalRegistry {
    /// The registry's invariant: every proposal is filed under its own
    /// identifier.
    pub open spec fn wf(&self) -> bool {
        forall|id: u128| self@.contains_key(id) ==> (#[trigger] self@[id]).id == id
    }

    /// A registry without proposals.
    pub fn new() -> (r: ProposalRegistry)
        ensures
            r.wf(),
            r@ == Map::<u128, Proposal>::empty(),
    {
        ProposalRegistry { proposals: HashMap::new() }
    }

    /// Proposal `id` with its tallies, once it has been voted on.
    pub fn get(&self, id: u128) -> (r: Option<Proposal>)
        ensures
            r == if self@.contains_key(id) {
                Some(self@[id])
            } else {
                None
            },
    {
        match self.proposals.get(&id) {
            Some(proposal) => Some(*proposal),
            None => None,
        }
    }

    /// The tallies of proposal `id`: zero on both sides before its first
    /// vote.
    fn tally(&self, id: u128) -> (r: Proposal)
        ensures
            r == tally_in(self@, id),
    {
        match self.proposals.get(&id) {
            Some(proposal) => *proposal,
            None => Proposal { id, votes_for: 0, votes_against: 0 },
        }
    }

    /// Whether one more vote on proposal `id`, on the side chosen, can still
    /// be counted.
    pub fn vote_fits(&self, id: u128, in_favor: bool) -> (r: bool)
        ensures
            r == vote_fits(self@, id, in_favor),
    {
        let before = self.tally(id);
        if in_favor {
            before.votes_for < u128::MAX
        } else {
            before.votes_against < u128::MAX
        }
    }

    /// Casts one vote on proposal `id`, for it or against it. The first vote
    /// on an identifier creates the proposal with both tallies at zero. The
    /// vote is always counted.
    ///
    /// The tally must have room for the vote:
    /// [`ProposalRegistry::vote_fits`] tells.
    pub fn vote(&mut self, id: u128, in_favor: bool) -> (r: Result<(), String>)
        requires
            old(self).wf(),
            vote_fits(old(self)@, id, in_favor),
        ensures
            final(self).wf(),
            r == Ok::<(), String>(()),
            final(self)@ == voted(old(self)@, id, in_favor),
    {
        let before = self.tally(id);
        let after = if in_favor {
            Proposal { votes_for: before.votes_for + 1, ..before }
        } else {
            Proposal { votes_against: before.votes_against + 1, ..before }
        };
        self.proposals.insert(id, after);
        Ok(())
    }
}

} // verus!
