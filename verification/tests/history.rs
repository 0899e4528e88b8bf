use token_ledger::account::AccountId;
use token_ledger::history::TransactionLog;
use token_ledger::service::Service;

fn party(tag: u8) -> AccountId {
    AccountId::new(vec![tag, tag]).unwrap()
}

/// A service in which `party(1)` was minted 1000 and then five transfers
/// completed, with the amounts 1 to 5 and the timestamps 10 to 50:
/// 1 -> 2, 1 -> 3, 2 -> 3, 3 -> 1, 1 -> 2.
fn busy_service() -> Service {
    let mut service = Service::new();
    assert_eq!(service.mint(&party(1), 1_000), Ok(()));
    assert_eq!(service.icrc2_transfer(party(1), party(2), 1, 10), Ok(1));
    assert_eq!(service.icrc2_transfer(party(1), party(3), 2, 20), Ok(2));
    assert!(service.icrc2_transfer(party(2), party(3), 3, 25).is_err());
    assert_eq!(service.mint(&party(2), 2), Ok(()));
    assert_eq!(service.icrc2_transfer(party(2), party(3), 3, 30), Ok(3));
    assert_eq!(service.icrc2_transfer(party(3), party(1), 4, 40), Ok(4));
    assert_eq!(service.icrc2_transfer(party(1), party(2), 5, 50), Ok(5));
    service
}

fn amounts(service: &Service, start: usize, length: usize) -> Vec<u128> {
    service.icrc3_get_transactions(start, length).iter().map(|t| t.amount).collect()
}

fn amounts_of(service: &Service, who: u8, start: usize, length: usize) -> Vec<u128> {
    service
        .icrc3_get_account_transactions(&party(who), start, length)
        .iter()
        .map(|t| t.amount)
        .collect()
}

#[test]
fn all_completed_transfers_are_listed_in_the_order_of_completion() {
    let service = busy_service();
    let listed = service.icrc3_get_transactions(0, 5);
    assert_eq!(listed.len(), 5);
    let expected = [
        (10i64, 1u8, 2u8, 1u128),
        (20, 1, 3, 2),
        (30, 2, 3, 3),
        (40, 3, 1, 4),
        (50, 1, 2, 5),
    ];
    for (record, (timestamp, from, to, amount)) in listed.iter().zip(expected.iter()) {
        assert_eq!(record.timestamp, *timestamp);
        assert_eq!(record.from, party(*from));
        assert_eq!(record.to, party(*to));
        assert_eq!(record.amount, *amount);
        assert_eq!(record.fee, 0);
        assert_eq!(record.memo, None);
    }
}

#[test]
fn a_range_is_cut_where_the_history_ends() {
    let service = busy_service();
    assert_eq!(amounts(&service, 0, 2), vec![1, 2]);
    assert_eq!(amounts(&service, 1, 3), vec![2, 3, 4]);
    assert_eq!(amounts(&service, 3, 10), vec![4, 5]);
    assert_eq!(amounts(&service, 4, usize::MAX), vec![5]);
    assert_eq!(amounts(&service, 0, usize::MAX), vec![1, 2, 3, 4, 5]);
}

#[test]
fn a_range_past_the_end_or_of_no_length_is_empty() {
    let service = busy_service();
    assert!(amounts(&service, 5, 3).is_empty());
    assert!(amounts(&service, 6, 3).is_empty());
    assert!(amounts(&service, usize::MAX, usize::MAX).is_empty());
    assert!(amounts(&service, 2, 0).is_empty());
    assert!(Service::new().icrc3_get_transactions(0, 10).is_empty());
}

#[test]
fn a_single_transaction_is_found_by_its_position() {
    let service = busy_service();
    assert_eq!(service.icrc3_get_transaction(0).unwrap().amount, 1);
    assert_eq!(service.icrc3_get_transaction(4).unwrap().amount, 5);
    assert_eq!(service.icrc3_get_transaction(2).unwrap().from, party(2));
    assert!(service.icrc3_get_transaction(5).is_none());
    assert!(service.icrc3_get_transaction(usize::MAX).is_none());
}

#[test]
fn an_account_is_shown_the_transfers_it_took_part_in() {
    let service = busy_service();
    assert_eq!(amounts_of(&service, 1, 0, 10), vec![1, 2, 4, 5]);
    assert_eq!(amounts_of(&service, 2, 0, 10), vec![1, 3, 5]);
    assert_eq!(amounts_of(&service, 3, 0, 10), vec![2, 3, 4]);
    assert!(amounts_of(&service, 9, 0, 10).is_empty());
    for record in service.icrc3_get_account_transactions(&party(3), 0, 10) {
        assert!(record.from == party(3) || record.to == party(3));
    }
}

#[test]
fn an_account_listing_is_cut_to_the_length_asked_for() {
    let service = busy_service();
    assert_eq!(amounts_of(&service, 1, 0, 3), vec![1, 2, 4]);
    assert_eq!(amounts_of(&service, 1, 0, 4), vec![1, 2, 4, 5]);
    assert_eq!(amounts_of(&service, 1, 0, 1), vec![1]);
    assert!(amounts_of(&service, 1, 0, 0).is_empty());
}

#[test]
fn an_account_listing_skips_matching_transfers_only() {
    let service = busy_service();
    assert_eq!(amounts_of(&service, 1, 1, 2), vec![2, 4]);
    assert_eq!(amounts_of(&service, 1, 3, 5), vec![5]);
    assert_eq!(amounts_of(&service, 2, 2, usize::MAX), vec![5]);
    assert!(amounts_of(&service, 1, 4, 5).is_empty());
    assert!(amounts_of(&service, 1, usize::MAX, usize::MAX).is_empty());
}

#[test]
fn a_transfer_to_oneself_is_listed_once() {
    let mut service = Service::new();
    assert_eq!(service.mint(&party(1), 5), Ok(()));
    assert_eq!(service.icrc2_transfer(party(1), party(1), 5, 1), Ok(5));
    assert_eq!(amounts_of(&service, 1, 0, 10), vec![5]);
}

#[test]
fn a_new_log_is_empty() {
    let log = TransactionLog::new();
    assert_eq!(log.len(), 0);
    assert!(log.get(0).is_none());
    assert!(log.get_range(0, 3).is_empty());
    assert!(log.get_account_range(&party(1), 0, 3).is_empty());
}
