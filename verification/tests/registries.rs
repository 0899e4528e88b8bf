use token_ledger::account::AccountId;
use token_ledger::offers::{BestOffer, Offer, OfferRegistry, OfferVerdict, SubmitOfferResponse};
use token_ledger::proposals::{Proposal, ProposalRegistry};
use token_ledger::service::Service;
use token_ledger::solutions::{
    BestSolution, Challenge, ChallengeTerms, Solution, SolutionAccepted, SolutionRegistry,
    SolutionRejected, SolutionVerdict,
};

/// A solution for the opening challenge with the one proof byte `proof`.
/// The opening challenge has the randomness 12345, which is 0x3039, so the
/// digest is 0x3000 + (0x39 ^ proof).
fn solution(proof: u8) -> Solution {
    Solution { time: 0, principal: None, bytes: vec![1, 0, 1, 2, 3, 4, 5, proof] }
}

const STRENGTH_4: u8 = 0x39 ^ 0b0000_0011;
const STRENGTH_5: u8 = 0x39 ^ 0b0000_0111;
const STRENGTH_6: u8 = 0x39 ^ 0b0000_1111;
const STRENGTH_7: u8 = 0x39 ^ 0b0001_1111;
const STRENGTH_10: u8 = 0x39 ^ 0b1111_1111;

#[test]
fn the_challenge_carries_the_time_at_which_it_is_read() {
    let service = Service::new();
    for now in [0u64, 77, u64::MAX] {
        assert_eq!(
            service.get_challenge(now),
            Challenge {
                version: 1,
                min_num_ones: 5,
                time: now,
                randomness: 12345,
                parent_hash: vec![0, 1, 2, 3, 4, 5],
            }
        );
    }
}

#[test]
fn the_opening_strength_is_on_record_before_any_solution() {
    let service = Service::new();
    assert_eq!(service.get_best_solution(), BestSolution { time: 0, cur_min_ones: 6 });
}

#[test]
fn the_stronger_of_two_solutions_is_the_best_whatever_the_order() {
    let mut service = Service::new();
    assert_eq!(
        service.submit_solution(&solution(STRENGTH_5), 110),
        Ok(SolutionAccepted { time: 110, cur_min_ones: 6 })
    );
    assert_eq!(
        service.submit_solution(&solution(STRENGTH_7), 120),
        Ok(SolutionAccepted { time: 120, cur_min_ones: 7 })
    );
    assert_eq!(service.get_best_solution().cur_min_ones, 7);
    assert_eq!(service.get_best_solution(), BestSolution { time: 120, cur_min_ones: 7 });

    let mut service = Service::new();
    assert_eq!(
        service.submit_solution(&solution(STRENGTH_7), 110),
        Ok(SolutionAccepted { time: 110, cur_min_ones: 7 })
    );
    assert_eq!(
        service.submit_solution(&solution(STRENGTH_5), 120),
        Ok(SolutionAccepted { time: 120, cur_min_ones: 7 })
    );
    assert_eq!(service.get_best_solution().cur_min_ones, 7);
    assert_eq!(service.get_best_solution(), BestSolution { time: 110, cur_min_ones: 7 });
}

#[test]
fn an_acceptance_carries_the_time_of_the_submission() {
    let mut service = Service::new();
    for now in [5u64, 3, u64::MAX] {
        let answer = service.submit_solution(&solution(STRENGTH_6), now).unwrap();
        assert_eq!(answer.time, now);
        assert_eq!(answer.cur_min_ones, service.get_best_solution().cur_min_ones);
    }
    assert_eq!(service.get_best_solution(), BestSolution { time: 0, cur_min_ones: 6 });
}

#[test]
fn a_solution_of_equal_strength_leaves_the_record_as_it_is() {
    let mut service = Service::new();
    assert!(service.submit_solution(&solution(STRENGTH_7), 110).is_ok());
    assert_eq!(
        service.submit_solution(&solution(STRENGTH_7), 130),
        Ok(SolutionAccepted { time: 130, cur_min_ones: 7 })
    );
    assert_eq!(service.get_best_solution(), BestSolution { time: 110, cur_min_ones: 7 });
    assert_eq!(
        service.submit_solution(&solution(STRENGTH_10), 140),
        Ok(SolutionAccepted { time: 140, cur_min_ones: 10 })
    );
    assert_eq!(service.get_best_solution(), BestSolution { time: 140, cur_min_ones: 10 });
}

#[test]
fn a_solution_below_the_minimum_is_invalid() {
    let mut service = Service::new();
    assert_eq!(
        service.submit_solution(&solution(STRENGTH_4), 110),
        Err(SolutionRejected::InvalidSolution)
    );
    assert_eq!(service.get_best_solution(), BestSolution { time: 0, cur_min_ones: 6 });
}

#[test]
fn a_solution_for_another_challenge_is_a_mismatch() {
    let mut service = Service::new();
    let wrong_version =
        Solution { time: 0, principal: None, bytes: vec![2, 0, 1, 2, 3, 4, 5, STRENGTH_7] };
    assert_eq!(
        service.submit_solution(&wrong_version, 110),
        Err(SolutionRejected::ChallengeMismatch)
    );
    let wrong_parent =
        Solution { time: 0, principal: None, bytes: vec![1, 0, 1, 2, 3, 4, 6, STRENGTH_7] };
    assert_eq!(
        service.submit_solution(&wrong_parent, 110),
        Err(SolutionRejected::ChallengeMismatch)
    );
    assert_eq!(service.get_best_solution(), BestSolution { time: 0, cur_min_ones: 6 });
}

#[test]
fn a_solution_is_not_judged_by_the_time_it_names() {
    let mut service = Service::new();
    let early = Solution { time: 1, ..solution(STRENGTH_7) };
    let late = Solution { time: u64::MAX, ..solution(STRENGTH_10) };
    assert_eq!(
        service.submit_solution(&early, 50),
        Ok(SolutionAccepted { time: 50, cur_min_ones: 7 })
    );
    assert_eq!(
        service.submit_solution(&late, 60),
        Ok(SolutionAccepted { time: 60, cur_min_ones: 10 })
    );
}

#[test]
fn a_solution_without_a_whole_header_is_malformed() {
    let mut service = Service::new();
    let short = Solution { time: 0, principal: None, bytes: vec![1, 0, 1, 2, 3, 4] };
    assert_eq!(
        service.submit_solution(&short, 110),
        Err(SolutionRejected::Other("Solution payload is shorter than its header".to_string()))
    );
    let empty = Solution { time: 0, principal: None, bytes: Vec::new() };
    assert!(matches!(service.submit_solution(&empty, 110), Err(SolutionRejected::Other(_))));
    assert_eq!(service.get_best_solution(), BestSolution { time: 0, cur_min_ones: 6 });
}

#[test]
fn a_header_alone_has_the_strength_of_the_randomness() {
    let registry = SolutionRegistry::new();
    let bare = Solution {
        time: 5,
        principal: Some(AccountId::new(vec![9]).unwrap()),
        bytes: vec![1, 0, 1, 2, 3, 4, 5],
    };
    assert_eq!(registry.judge(&bare), SolutionVerdict::Valid { strength: 6 });
    let longer = Solution { time: 5, principal: None, bytes: vec![1, 0, 1, 2, 3, 4, 5, 0xF0, 0x0F] };
    assert_eq!(registry.judge(&longer), SolutionVerdict::Valid { strength: 6 });
    assert_eq!(registry.judge(&solution(STRENGTH_4)), SolutionVerdict::TooWeak);
    assert_eq!(registry.judge(&solution(STRENGTH_5)), SolutionVerdict::Valid { strength: 5 });
}

#[test]
fn a_registry_serves_the_challenge_it_was_made_for() {
    let terms = ChallengeTerms { version: 3, min_num_ones: 2, randomness: 0, parent_hash: vec![0xAA] };
    let mut registry = SolutionRegistry::for_challenge(terms, 2);
    assert_eq!(
        registry.get_challenge(9),
        Challenge { version: 3, min_num_ones: 2, time: 9, randomness: 0, parent_hash: vec![0xAA] }
    );
    assert_eq!(registry.get_best(), BestSolution { time: 0, cur_min_ones: 2 });
    let weak = Solution { time: 9, principal: None, bytes: vec![3, 0xAA, 0b0000_0001] };
    assert_eq!(registry.submit(&weak, 10), Err(SolutionRejected::InvalidSolution));
    let exact = Solution { time: 9, principal: None, bytes: vec![3, 0xAA, 0b0000_0011] };
    assert_eq!(registry.submit(&exact, 11), Ok(SolutionAccepted { time: 11, cur_min_ones: 2 }));
    assert_eq!(registry.get_best(), BestSolution { time: 0, cur_min_ones: 2 });
    let strong = Solution { time: 9, principal: None, bytes: vec![3, 0xAA, 0xFF] };
    assert_eq!(registry.submit(&strong, 12), Ok(SolutionAccepted { time: 12, cur_min_ones: 8 }));
    assert_eq!(registry.get_best(), BestSolution { time: 12, cur_min_ones: 8 });
    assert_eq!(ChallengeTerms::opening().read_at(4), Service::new().get_challenge(4));
}

#[test]
fn voting_twice_counts_twice() {
    let mut service = Service::new();
    assert_eq!(service.get_proposal(1), None);
    assert_eq!(service.vote_for_proposal(1, true), Ok(()));
    assert_eq!(service.vote_for_proposal(1, true), Ok(()));
    assert_eq!(
        service.get_proposal(1),
        Some(Proposal { id: 1, votes_for: 2, votes_against: 0 })
    );
}

#[test]
fn votes_are_counted_on_their_side_and_on_their_proposal() {
    let mut service = Service::new();
    assert_eq!(service.vote_for_proposal(7, false), Ok(()));
    assert_eq!(
        service.get_proposal(7),
        Some(Proposal { id: 7, votes_for: 0, votes_against: 1 })
    );
    assert_eq!(service.vote_for_proposal(7, true), Ok(()));
    assert_eq!(service.vote_for_proposal(7, false), Ok(()));
    assert_eq!(service.vote_for_proposal(u128::MAX, true), Ok(()));
    assert_eq!(
        service.get_proposal(7),
        Some(Proposal { id: 7, votes_for: 1, votes_against: 2 })
    );
    assert_eq!(
        service.get_proposal(u128::MAX),
        Some(Proposal { id: u128::MAX, votes_for: 1, votes_against: 0 })
    );
    assert_eq!(service.get_proposal(8), None);
}

#[test]
fn a_vote_fits_while_the_tally_has_room() {
    let mut service = Service::new();
    assert!(service.vote_fits(1, true));
    assert!(service.vote_fits(1, false));
    assert_eq!(service.vote_for_proposal(1, true), Ok(()));
    assert!(service.vote_fits(1, true));
    let mut registry = ProposalRegistry::new();
    assert!(registry.vote_fits(3, false));
    assert_eq!(registry.get(3), None);
    assert_eq!(registry.vote(3, true), Ok(()));
    assert_eq!(registry.get(3), Some(Proposal { id: 3, votes_for: 1, votes_against: 0 }));
    assert!(registry.vote_fits(3, true));
}

#[test]
fn the_opening_offer_stands_before_any_offer() {
    let service = Service::new();
    assert_eq!(
        service.get_best_offer(),
        BestOffer { amount: 1000, num_cycles: 5000, total_amount: 10000 }
    );
    assert_eq!(service.get_best_offer(), service.get_best_offer());
    assert_eq!(OfferRegistry::new().get_best(), service.get_best_offer());
}

#[test]
fn an_offer_must_give_more_per_cycle_than_the_best() {
    let mut service = Service::new();
    // 1 per 5 again: equal to the opening offer, so not better.
    assert_eq!(
        service.submit_offer(Offer { amount: 2_000, num_attached_cycles: 10_000 }),
        SubmitOfferResponse::Rejected("Offer does not improve on the best offer".to_string())
    );
    // 1999 per 10000 is less than 1 per 5.
    assert_eq!(
        service.submit_offer(Offer { amount: 1_999, num_attached_cycles: 10_000 }),
        SubmitOfferResponse::Rejected("Offer does not improve on the best offer".to_string())
    );
    assert_eq!(
        service.submit_offer(Offer { amount: 0, num_attached_cycles: 1 }),
        SubmitOfferResponse::Rejected("Offer does not improve on the best offer".to_string())
    );
    assert_eq!(
        service.get_best_offer(),
        BestOffer { amount: 1_000, num_cycles: 5_000, total_amount: 10_000 }
    );
    // 2001 per 10000 is more than 1 per 5.
    assert_eq!(
        service.submit_offer(Offer { amount: 2_001, num_attached_cycles: 10_000 }),
        SubmitOfferResponse::Accepted
    );
    assert_eq!(
        service.get_best_offer(),
        BestOffer { amount: 2_001, num_cycles: 10_000, total_amount: 12_001 }
    );
    // A smaller amount wins when it takes far fewer cycles.
    assert_eq!(
        service.submit_offer(Offer { amount: 1, num_attached_cycles: 1 }),
        SubmitOfferResponse::Accepted
    );
    assert_eq!(
        service.get_best_offer(),
        BestOffer { amount: 1, num_cycles: 1, total_amount: 12_002 }
    );
}

#[test]
fn an_offer_without_cycles_is_rejected() {
    let mut service = Service::new();
    assert_eq!(
        service.submit_offer(Offer { amount: 5, num_attached_cycles: 0 }),
        SubmitOfferResponse::Rejected("Offer attaches no cycles".to_string())
    );
    assert_eq!(
        service.submit_offer(Offer { amount: u64::MAX, num_attached_cycles: 0 }),
        SubmitOfferResponse::Rejected("Offer attaches no cycles".to_string())
    );
    assert_eq!(
        service.get_best_offer(),
        BestOffer { amount: 1000, num_cycles: 5000, total_amount: 10000 }
    );
}

#[test]
fn offers_are_compared_without_overflow() {
    let mut registry = OfferRegistry::new();
    let large = Offer { amount: u64::MAX - 10_000, num_attached_cycles: u64::MAX };
    assert_eq!(registry.judge(large), OfferVerdict::Accept);
    assert!(registry.fits(large));
    assert_eq!(registry.submit(large), SubmitOfferResponse::Accepted);
    assert_eq!(
        registry.get_best(),
        BestOffer { amount: u64::MAX - 10_000, num_cycles: u64::MAX, total_amount: u64::MAX }
    );
    assert_eq!(registry.judge(large), OfferVerdict::NotPreferred);
    assert_eq!(
        registry.judge(Offer { amount: u64::MAX - 10_001, num_attached_cycles: u64::MAX - 1 }),
        OfferVerdict::NotPreferred
    );
    assert_eq!(
        registry.judge(Offer { amount: u64::MAX, num_attached_cycles: u64::MAX }),
        OfferVerdict::Accept
    );
    assert_eq!(registry.judge(Offer { amount: 1, num_attached_cycles: 0 }), OfferVerdict::NoCycles);
    assert_eq!(OfferVerdict::Accept.reason(), "Offer accepted");
}

#[test]
fn an_offer_fits_as_long_as_the_total_can_be_represented() {
    let mut service = Service::new();
    let half = Offer { amount: 1 << 63, num_attached_cycles: 2 };
    assert!(service.offer_fits(half));
    assert_eq!(service.submit_offer(half), SubmitOfferResponse::Accepted);
    assert_eq!(
        service.get_best_offer(),
        BestOffer { amount: 1 << 63, num_cycles: 2, total_amount: (1 << 63) + 10_000 }
    );
    // Better than the best, but the total has no room for it.
    assert!(!service.offer_fits(Offer { amount: 1 << 63, num_attached_cycles: 1 }));
    // What is turned down adds nothing.
    assert!(service.offer_fits(Offer { amount: u64::MAX, num_attached_cycles: 0 }));
    assert!(service.offer_fits(Offer { amount: 1 << 63, num_attached_cycles: 3 }));
    // The largest amount that still has room.
    let room = u64::MAX - ((1 << 63) + 10_000);
    assert!(service.offer_fits(Offer { amount: room, num_attached_cycles: 1 }));
    assert!(!service.offer_fits(Offer { amount: room + 1, num_attached_cycles: 1 }));
}
