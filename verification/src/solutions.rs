//! The solution registry: the terms of the current challenge and the
//! strongest solution accepted for it.
//!
//! A challenge is its terms together with the time at which it is read. The
//! payload of a solution opens with a header that repeats the version and the
//! parent hash of the challenge that it answers:
//!
//! ```text
//! payload = version (1 byte) | parent hash | proof
//! ```
//!
//! The strength of a solution is the number of one bits in its digest: the
//! challenge's randomness, exclusive-or the checksum of the proof. A solution
//! is valid when its header matches the current terms and its strength
//! reaches their minimum. The registry keeps the greatest strength seen, and
//! changes its record only for a solution that is strictly stronger.

use crate::account::{same_bytes, AccountId};
use crate::digest::{count_ones, ones_in, simple_hash, xor_fold};
use vstd::prelude::*;
use vstd::slice::slice_subrange;

verus! {

/// The version of the opening challenge.
pub const OPENING_VERSION: u8 = 1;

/// The least strength that the opening challenge asks for.
pub const OPENING_MIN_NUM_ONES: u8 = 5;

/// The randomness of the opening challenge.
pub const OPENING_RANDOMNESS: u32 = 12345;

/// The strength on record before any solution is submitted.
pub const OPENING_CUR_MIN_ONES: u8 = 6;

/// The terms of a challenge: all of it but the time at which it is read.
#[derive(Debug, PartialEq, Eq)]
pub struct ChallengeTerms {
    pub version: u8,
    /// The least strength of a valid solution.
    pub min_num_ones: u8,
    pub randomness: u32,
    pub parent_hash: Vec<u8>,
}

/// What [`ChallengeTerms`] say, as plain values.
pub struct Terms {
    pub version: u8,
    pub min_num_ones: u8,
    pub randomness: u32,
    pub parent_hash: Seq<u8>,
}

impl View for ChallengeTerms {
    type V = Terms;

    open spec fn view(&self) -> Terms {
        Terms {
            version: self.version,
            min_num_ones: self.min_num_ones,
            randomness: self.randomness,
            parent_hash: self.parent_hash@,
        }
    }
}

/// A challenge, as it is read at some time.
#[derive(Debug, PartialEq, Eq)]
pub struct Challenge {
    pub version: u8,
    /// The least strength of a valid solution.
    pub min_num_ones: u8,
    /// When the challenge was read.
    pub time: u64,
    pub randomness: u32,
    pub parent_hash: Vec<u8>,
}

/// What a [`Challenge`] says, as plain values.
pub struct ChallengeData {
    pub version: u8,
    pub min_num_ones: u8,
    pub time: u64,
    pub randomness: u32,
    pub parent_hash: Seq<u8>,
}

impl View for Challenge {
    type V = ChallengeData;

    open spec fn view(&self) -> ChallengeData {
        ChallengeData {
            version: self.version,
            min_num_ones: self.min_num_ones,
            time: self.time,
            randomness: self.randomness,
            parent_hash: self.parent_hash@,
        }
    }
}

/// The challenge with the terms `terms`, read at `time`.
pub open spec fn challenge_at(terms: Terms, time: u64) -> ChallengeData {
    ChallengeData {
        version: terms.version,
        min_num_ones: terms.min_num_ones,
        time,
        randomness: terms.randomness,
        parent_hash: terms.parent_hash,
    }
}

/// The terms of the opening challenge.
pub open spec fn opening_terms() -> Terms {
    Terms {
        version: OPENING_VERSION,
        min_num_ones: OPENING_MIN_NUM_ONES,
        randomness: OPENING_RANDOMNESS,
        parent_hash: seq![0u8, 1u8, 2u8, 3u8, 4u8, 5u8],
    }
}

impl ChallengeTerms {
    /// The terms of the opening challenge.
    pub fn opening() -> (r: ChallengeTerms)
        ensures
            r@ == opening_terms(),
    {
        let mut parent_hash: Vec<u8> = Vec::new();
        parent_hash.push(0);
        parent_hash.push(1);
        parent_hash.push(2);
        parent_hash.push(3);
        parent_hash.push(4);
        parent_hash.push(5);
        assert(parent_hash@ =~= seq![0u8, 1u8, 2u8, 3u8, 4u8, 5u8]);
        ChallengeTerms {
            version: OPENING_VERSION,
            min_num_ones: OPENING_MIN_NUM_ONES,
            randomness: OPENING_RANDOMNESS,
            parent_hash,
        }
    }

    /// The challenge with these terms, read at `time`.
    pub fn read_at(&self, time: u64) -> (r: Challenge)
        ensures
            r@ == challenge_at(self@, time),
    {
        let parent_hash = self.parent_hash.clone();
        assert(parent_hash@ =~= self.parent_hash@);
        Challenge {
            version: self.version,
            min_num_ones: self.min_num_ones,
            time,
            randomness: self.randomness,
            parent_hash,
        }
    }
}

/// A submitted solution.
#[derive(Debug, PartialEq, Eq)]
pub struct Solution {
    /// The time at which the solver read the challenge. The registry does
    /// not judge by it.
    pub time: u64,
    /// Who found the solution, if they say so.
    pub principal: Option<AccountId>,
    /// The payload: header and proof.
    pub bytes: Vec<u8>,
}

/// The record of the strongest accepted solution: when it was accepted, and
/// its strength. Before any solution improves on it, the record holds the
/// opening strength, at time zero.
#[derive(Clone, Copy, Debug, PartialEq, Eq, Structural)]
pub struct BestSolution {
    pub time: u64,
    pub cur_min_ones: u8,
}

/// The answer to an accepted solution: the time of the submission, and the
/// strength that is on record once the solution is dealt with.
#[derive(Clone, Copy, Debug, PartialEq, Eq, Structural)]
pub struct SolutionAccepted {
    pub time: u64,
    pub cur_min_ones: u8,
}

/// Why a solution was rejected.
#[derive(Debug, PartialEq, Eq)]
pub enum SolutionRejected {
    /// The solution is too weak for the challenge.
    InvalidSolution,
    /// The solution answers another challenge than the current one.
    ChallengeMismatch,
    /// The solution is malformed, in the way described.
    Other(String),
}

/// How the registry judges a solution.
#[derive(Clone, Copy, Debug, PartialEq, Eq, Structural)]
pub enum SolutionVerdict {
    /// The solution answers the current challenge with this strength.
    Valid { strength: u8 },
    /// The payload is too short to hold its header.
    Malformed,
    /// The header names another version or parent hash than the current
    /// challenge has.
    Stale,
    /// The strength is below the challenge's minimum.
    TooWeak,
}

/// The length of the header of a payload that answers a challenge with the
/// terms `terms`.
pub open spec fn header_len(terms: Terms) -> nat {
    1 + terms.parent_hash.len()
}

/// The strength of `proof` under `randomness`.
pub open spec fn strength_of(randomness: u32, proof: Seq<u8>) -> nat {
    ones_in((randomness ^ xor_fold(proof)) as nat)
}

/// Whether the header of `payload`, which is long enough to hold one, names
/// the version and the parent hash of `terms`.
pub open spec fn answers(terms: Terms, payload: Seq<u8>) -> bool {
    &&& payload[0] == terms.version
    &&& payload.subrange(1, header_len(terms) as int) == terms.parent_hash
}

/// The verdict on a solution with the payload `payload`, while `terms` are
/// the terms of the current challenge.
pub open spec fn solution_verdict(terms: Terms, payload: Seq<u8>) -> SolutionVerdict {
    if payload.len() < header_len(terms) {
        SolutionVerdict::Malformed
    } else if !answers(terms, payload) {
        SolutionVerdict::Stale
    } else {
        let strength = strength_of(terms.randomness, payload.skip(header_len(terms) as int));
        if strength < terms.min_num_ones {
            SolutionVerdict::TooWeak
        } else {
            SolutionVerdict::Valid { strength: strength as u8 }
        }
    }
}

/// The record of the strongest solution after a valid solution of strength
/// `strength` came in at `now`: the record changes only for a strictly
/// stronger solution.
pub open spec fn after_valid(best: BestSolution, strength: u8, now: u64) -> BestSolution {
    if strength > best.cur_min_ones {
        BestSolution { time: now, cur_min_ones: strength }
    } else {
        best
    }
}

/// The solution registry.
pub struct SolutionRegistry {
    terms: ChallengeTerms,
    best: BestSolution,
}

impl SolutionRegistry {
    /// The terms of the current challenge.
    pub closed spec fn terms(&self) -> Terms {
        self.terms@
    }

    /// The record of the strongest accepted solution.
    pub closed spec fn best(&self) -> BestSolution {
        self.best
    }

    /// A registry for the opening challenge, with the opening strength on
    /// record.
    pub fn new() -> (r: SolutionRegistry)
        ensures
            r.terms() == opening_terms(),
            r.best() == (BestSolution { time: 0, cur_min_ones: OPENING_CUR_MIN_ONES }),
    {
        SolutionRegistry {
            terms: ChallengeTerms::opening(),
            best: BestSolution { time: 0, cur_min_ones: OPENING_CUR_MIN_ONES },
        }
    }

    /// A registry for a challenge with the terms `terms`, with the strength
    /// `cur_min_ones` on record.
    pub fn for_challenge(terms: ChallengeTerms, cur_min_ones: u8) -> (r: SolutionRegistry)
        ensures
            r.terms() == terms@,
            r.best() == (BestSolution { time: 0, cur_min_ones }),
    {
        SolutionRegistry { terms, best: BestSolution { time: 0, cur_min_ones } }
    }

    /// The current challenge, read at `now`: its terms, with `now` as its
    /// time.
    pub fn get_challenge(&self, now: u64) -> (r: Challenge)
        ensures
            r@ == challenge_at(self.terms(), now),
    {
        self.terms.read_at(now)
    }

    /// The record of the strongest accepted solution.
    pub fn get_best(&self) -> (r: BestSolution)
        ensures
            r == self.best(),
    {
        self.best
    }

    /// Judges `solution` against the current challenge, without changing
    /// anything.
    pub fn judge(&self, solution: &Solution) -> (r: SolutionVerdict)
        ensures
            r == solution_verdict(self.terms(), solution.bytes@),
    {
        let parent_len = self.terms.parent_hash.len();
        if solution.bytes.len() <= parent_len {
            return SolutionVerdict::Malformed;
        }
        let payload = solution.bytes.as_slice();
        let named_parent = slice_subrange(payload, 1, parent_len + 1);
        if payload[0] != self.terms.version || !same_bytes(
            named_parent,
            self.terms.parent_hash.as_slice(),
        ) {
            return SolutionVerdict::Stale;
        }
        let proof = slice_subrange(payload, parent_len + 1, payload.len());
        assert(proof@ =~= solution.bytes@.skip(header_len(self.terms()) as int));
        let digest = self.terms.randomness ^ simple_hash(proof);
        let strength = count_ones(digest);
        if strength < self.terms.min_num_ones {
            SolutionVerdict::TooWeak
        } else {
            SolutionVerdict::Valid { strength }
        }
    }

    /// Submits `solution` at time `now`.
    ///
    /// A valid solution is accepted. The record changes only if the solution
    /// is strictly stronger than the strength on record; the answer carries
    /// `now` and the strength that is on record afterwards. Any other
    /// solution is rejected and leaves the registry as it was: with
    /// `ChallengeMismatch` when it answers another challenge, with
    /// `InvalidSolution` when it is too weak, with `Other` when its payload
    /// is too short.
    pub fn submit(&mut self, solution: &Solution, now: u64) -> (r: Result<
        SolutionAccepted,
        SolutionRejected,
    >)
        ensures
            final(self).terms() == old(self).terms(),
            final(self).best().cur_min_ones >= old(self).best().cur_min_ones,
            match solution_verdict(old(self).terms(), solution.bytes@) {
                SolutionVerdict::Valid { strength } => {
                    &&& final(self).best() == after_valid(old(self).best(), strength, now)
                    &&& r == Ok::<SolutionAccepted, SolutionRejected>(
                        SolutionAccepted {
                            time: now,
                            cur_min_ones: final(self).best().cur_min_ones,
                        },
                    )
                },
                SolutionVerdict::Stale => {
                    &&& final(self).best() == old(self).best()
                    &&& r == Err::<SolutionAccepted, SolutionRejected>(
                        SolutionRejected::ChallengeMismatch,
                    )
                },
                SolutionVerdict::TooWeak => {
                    &&& final(self).best() == old(self).best()
                    &&& r == Err::<SolutionAccepted, SolutionRejected>(
                        SolutionRejected::InvalidSolution,
                    )
                },
                SolutionVerdict::Malformed => {
                    &&& final(self).best() == old(self).best()
                    &&& r matches Err(SolutionRejected::Other(reason))
                    &&& reason@ == "Solution payload is shorter than its header"@
                },
            },
    {
        match self.judge(solution) {
            SolutionVerdict::Valid { strength } => {
                if strength > self.best.cur_min_ones {
                    self.best = BestSolution { time: now, cur_min_ones: strength };
                }
                Ok(SolutionAccepted { time: now, cur_min_ones: self.best.cur_min_ones })
            },
            SolutionVerdict::Stale => Err(SolutionRejected::ChallengeMismatch),
            SolutionVerdict::TooWeak => Err(SolutionRejected::InvalidSolution),
            SolutionVerdict::Malformed => Err(
                SolutionRejected::Other("Solution payload is shorter than its header".to_owned()),
            ),
        }
    }
}

} // verus!
