//! What holds of the service over whole runs of calls.
//!
//! The calls that change balances are mints and transfers. A run is a list
//! of such calls, made one after the other. A mint always takes effect; a
//! transfer takes effect, or is refused and changes nothing. Balances are
//! counted here as natural numbers.

use crate::history::{involves, involving, transfer_record, window, Record};
use crate::ledger::{
    balance_in, lemma_mint_total, lemma_transfer_total, total_of, transfer_outcome,
};
use crate::proposals::{tally_in, vote_fits, voted, Proposal};
use crate::service::{after_mint, after_transfer, ServiceState};
use crate::solutions::{after_valid, BestSolution};
use vstd::prelude::*;

verus! {

/// A call that may change balances.
pub enum Call {
    /// A call to mint `amount` for `to`.
    Mint { to: Seq<u8>, amount: u128 },
    /// A call by `caller` to transfer `amount` to `to` at `timestamp`.
    Transfer { caller: Seq<u8>, to: Seq<u8>, amount: u128, timestamp: i64 },
}

/// The state after `call`.
pub open spec fn after_call(state: ServiceState, call: Call) -> ServiceState {
    match call {
        Call::Mint { to, amount } => after_mint(state, to, amount),
        Call::Transfer { caller, to, amount, timestamp } => after_transfer(
            state,
            caller,
            to,
            amount,
            timestamp,
        ),
    }
}

/// The state after all of `calls`, made in order.
pub open spec fn after_calls(state: ServiceState, calls: Seq<Call>) -> ServiceState
    decreases calls.len(),
{
    if calls.len() == 0 {
        state
    } else {
        after_call(after_calls(state, calls.drop_last()), calls.last())
    }
}

/// What `call` mints: its amount, if it is a mint.
pub open spec fn minted_by(call: Call) -> nat {
    match call {
        Call::Mint { amount, .. } => amount as nat,
        Call::Transfer { .. } => 0,
    }
}

/// The sum of the amounts minted by `calls`.
pub open spec fn minted_in(calls: Seq<Call>) -> nat
    decreases calls.len(),
{
    if calls.len() == 0 {
        0
    } else {
        minted_in(calls.drop_last()) + minted_by(calls.last())
    }
}

/// What `call` adds to the history when it is made in `state`: its record, if
/// it is a transfer that takes effect, and nothing otherwise. The record
/// names the call's time, its two accounts and its amount, with no fee and no
/// memo.
pub open spec fn recorded_by(state: ServiceState, call: Call) -> Seq<Record> {
    match call {
        Call::Transfer { caller, to, amount, timestamp } => if transfer_outcome(
            state.balances,
            caller,
            to,
            amount as nat,
        ) is Ok {
            seq![transfer_record(timestamp, caller, to, amount)]
        } else {
            Seq::empty()
        },
        Call::Mint { .. } => Seq::empty(),
    }
}

/// The records of the transfers among `calls`, made in order from `state`,
/// that take effect: one record each, in the order of the calls.
pub open spec fn recorded_in(state: ServiceState, calls: Seq<Call>) -> Seq<Record>
    decreases calls.len(),
{
    if calls.len() == 0 {
        Seq::empty()
    } else {
        recorded_in(state, calls.drop_last()) + recorded_by(
            after_calls(state, calls.drop_last()),
            calls.last(),
        )
    }
}

/// Conservation of value: after any run of mints and transfers, the sum of
/// all balances is the sum before the run plus the amounts that the run
/// minted. No fee is ever burned, so nothing is subtracted. Starting from no
/// balances at all, the sum of all balances is the sum of the minted amounts.
pub proof fn law_conservation(state: ServiceState, calls: Seq<Call>)
    requires
        state.balances.dom().finite(),
    ensures
        after_calls(state, calls).balances.dom().finite(),
        total_of(after_calls(state, calls).balances) == total_of(state.balances) + minted_in(
            calls,
        ),
        state.balances == Map::<Seq<u8>, nat>::empty() ==> total_of(
            after_calls(state, calls).balances,
        ) == minted_in(calls),
    decreases calls.len(),
{
    if calls.len() > 0 {
        law_conservation(state, calls.drop_last());
        let before = after_calls(state, calls.drop_last());
        match calls.last() {
            Call::Mint { to, amount } => {
                lemma_mint_total(before.balances, to, amount as nat);
            },
            Call::Transfer { caller, to, amount, timestamp } => {
                if balance_in(before.balances, caller) >= amount {
                    lemma_transfer_total(before.balances, caller, to, amount as nat);
                }
            },
        }
    }
    assert(Map::<Seq<u8>, nat>::empty().dom().len() == 0);
}

/// A transfer for more than the caller holds changes no balance, and
/// nothing else either.
pub proof fn law_refused_transfer(
    state: ServiceState,
    caller: Seq<u8>,
    to: Seq<u8>,
    amount: u128,
    timestamp: i64,
)
    requires
        balance_in(state.balances, caller) < amount,
    ensures
        after_transfer(state, caller, to, amount, timestamp) == state,
        forall|account: Seq<u8>|
            balance_in(
                after_transfer(state, caller, to, amount, timestamp).balances,
                account,
            ) == balance_in(state.balances, account),
{
}

/// The history is the list of the transfers that took effect, in the order
/// in which they completed: a run adds the records of its transfers that
/// take effect at the end, in the order of the calls, and touches nothing
/// that was recorded before. Every record carries a fee of zero.
///
/// So after a run from an empty history in which some number of transfers
/// took effect, asking for that many transactions from the start gives
/// exactly their records, in the order of completion.
pub proof fn law_history(state: ServiceState, calls: Seq<Call>)
    ensures
        after_calls(state, calls).history == state.history + recorded_in(state, calls),
        recorded_in(state, calls).len() <= calls.len(),
        forall|i: int|
            0 <= i < recorded_in(state, calls).len() ==> (#[trigger] recorded_in(
                state,
                calls,
            )[i]).fee == 0,
        state.history.len() == 0 ==> window(
            after_calls(state, calls).history,
            0,
            recorded_in(state, calls).len(),
        ) == recorded_in(state, calls),
    decreases calls.len(),
{
    if calls.len() == 0 {
        assert(state.history =~= state.history + recorded_in(state, calls));
    } else {
        let shorter = calls.drop_last();
        law_history(state, shorter);
        let before = after_calls(state, shorter);
        let added = recorded_by(before, calls.last());
        assert(after_calls(state, calls).history =~= before.history + added);
        assert(after_calls(state, calls).history =~= state.history + recorded_in(state, calls));
    }
    if state.history.len() == 0 {
        let history = after_calls(state, calls).history;
        assert(history =~= recorded_in(state, calls));
        assert(window(history, 0, history.len()) =~= history);
    }
}

/// Round trip: minting an amount for an account and then transferring that
/// amount on to a fresh account leaves the first account with what it held
/// before, and the fresh account with exactly the amount. The transfer takes
/// effect.
pub proof fn law_round_trip(
    state: ServiceState,
    recipient: Seq<u8>,
    fresh: Seq<u8>,
    amount: u128,
    timestamp: i64,
)
    requires
        fresh != recipient,
        balance_in(state.balances, fresh) == 0,
    ensures
        ({
            let minted = after_mint(state, recipient, amount);
            let moved = after_transfer(minted, recipient, fresh, amount, timestamp);
            &&& transfer_outcome(minted.balances, recipient, fresh, amount as nat) is Ok
            &&& balance_in(moved.balances, recipient) == balance_in(state.balances, recipient)
            &&& balance_in(moved.balances, fresh) == amount
        }),
{
}

/// Whether `earlier` stands in `items` at some position before one at which
/// `later` stands.
pub open spec fn stands_before<T>(items: Seq<T>, earlier: T, later: T) -> bool {
    exists|p: int, q: int|
        0 <= p < q < items.len() && #[trigger] items[p] == earlier && #[trigger] items[q]
            == later
}

/// A selection from a list holds only items that pass the test, each of
/// them an item of the list, and keeps the list's order: of any two selected
/// items, the earlier one stands earlier in the list too.
pub proof fn lemma_filter_keeps_order<T>(items: Seq<T>, keep: spec_fn(T) -> bool)
    ensures
        forall|i: int|
            0 <= i < items.filter(keep).len() ==> keep(#[trigger] items.filter(keep)[i])
                && items.contains(items.filter(keep)[i]),
        forall|i: int, j: int|
            0 <= i < j < items.filter(keep).len() ==> stands_before(
                items,
                #[trigger] items.filter(keep)[i],
                #[trigger] items.filter(keep)[j],
            ),
    decreases items.len(),
{
    reveal(Seq::filter);
    if items.len() > 0 {
        let rest = items.drop_last();
        let kept = items.filter(keep);
        let kept_rest = rest.filter(keep);
        let end = items.len() - 1;
        lemma_filter_keeps_order(rest, keep);
        assert forall|i: int| 0 <= i < kept.len() implies keep(#[trigger] kept[i])
            && items.contains(kept[i]) by {
            if i < kept_rest.len() {
                assert(rest.contains(kept_rest[i]));
                let p = choose|p: int| 0 <= p < rest.len() && rest[p] == kept_rest[i];
                assert(items[p] == kept[i]);
            } else {
                assert(items[end] == kept[i]);
            }
        }
        assert forall|i: int, j: int| 0 <= i < j < kept.len() implies stands_before(
            items,
            #[trigger] kept[i],
            #[trigger] kept[j],
        ) by {
            if j < kept_rest.len() {
                assert(stands_before(rest, kept_rest[i], kept_rest[j]));
                let (p, q) = choose|p: int, q: int|
                    0 <= p < q < rest.len() && #[trigger] rest[p] == kept_rest[i]
                        && #[trigger] rest[q] == kept_rest[j];
                assert(items[p] == kept[i] && items[q] == kept[j]);
            } else {
                assert(rest.contains(kept_rest[i]));
                let p = choose|p: int| 0 <= p < rest.len() && rest[p] == kept_rest[i];
                assert(items[p] == kept[i] && items[end] == kept[j]);
            }
        }
    }
}

/// The transactions listed for `account`: up to `length` of those in which
/// it paid or was paid, after skipping the first `start` of them.
pub open spec fn account_listing(
    history: Seq<Record>,
    account: Seq<u8>,
    start: nat,
    length: nat,
) -> Seq<Record> {
    window(history.filter(involving(account)), start, length)
}

/// The transactions listed for an account: there are at most `length` of
/// them, the account paid or was paid in each, and they stand in the order
/// in which they stand in the history. Asked from the start, they are the
/// first `length` such transactions, or all of them where there are fewer.
pub proof fn law_account_listing(history: Seq<Record>, account: Seq<u8>, start: nat, length: nat)
    ensures
        account_listing(history, account, start, length).len() <= length,
        forall|i: int|
            0 <= i < account_listing(history, account, start, length).len() ==> involves(
                #[trigger] account_listing(history, account, start, length)[i],
                account,
            ),
        forall|i: int, j: int|
            0 <= i < j < account_listing(history, account, start, length).len()
                ==> stands_before(
                history,
                #[trigger] account_listing(history, account, start, length)[i],
                #[trigger] account_listing(history, account, start, length)[j],
            ),
        start == 0 ==> account_listing(history, account, start, length) == history.filter(
            involving(account),
        ).take(account_listing(history, account, start, length).len() as int),
        start == 0 && length <= history.filter(involving(account)).len() ==> account_listing(
            history,
            account,
            start,
            length,
        ).len() == length,
        start == 0 && length >= history.filter(involving(account)).len() ==> account_listing(
            history,
            account,
            start,
            length,
        ) == history.filter(involving(account)),
{
    let matching = history.filter(involving(account));
    let listed = account_listing(history, account, start, length);
    lemma_filter_keeps_order(history, involving(account));
    let first: int = if start < matching.len() {
        start as int
    } else {
        matching.len() as int
    };
    assert forall|i: int| 0 <= i < listed.len() implies involves(#[trigger] listed[i], account) by {
        assert(listed[i] == matching[first + i]);
        assert(involving(account)(matching[first + i]));
    }
    assert forall|i: int, j: int| 0 <= i < j < listed.len() implies stands_before(
        history,
        #[trigger] listed[i],
        #[trigger] listed[j],
    ) by {
        assert(listed[i] == matching[first + i]);
        assert(listed[j] == matching[first + j]);
    }
    if start == 0 {
        assert(listed =~= matching.take(listed.len() as int));
        if length >= matching.len() {
            assert(listed =~= matching);
        }
    }
}

/// The strongest solution wins, whatever the order: after two valid
/// solutions the recorded strength is the greatest of the strength recorded
/// before and the two new ones.
pub proof fn law_strongest_solution(
    best: BestSolution,
    first: u8,
    second: u8,
    first_time: u64,
    second_time: u64,
)
    ensures
        ({
            let one_way = after_valid(
                after_valid(best, first, first_time),
                second,
                second_time,
            );
            let other_way = after_valid(
                after_valid(best, second, second_time),
                first,
                first_time,
            );
            &&& one_way.cur_min_ones == other_way.cur_min_ones
            &&& one_way.cur_min_ones >= best.cur_min_ones
            &&& one_way.cur_min_ones >= first
            &&& one_way.cur_min_ones >= second
            &&& one_way.cur_min_ones == best.cur_min_ones || one_way.cur_min_ones == first
                || one_way.cur_min_ones == second
        }),
{
}

/// A vote touches one tally of one proposal: it raises the chosen tally of
/// its proposal by exactly one and leaves the other tally and every other
/// proposal as they were. No proposal is ever removed.
pub proof fn law_vote_counts_once(proposals: Map<u128, Proposal>, id: u128, in_favor: bool)
    requires
        vote_fits(proposals, id, in_favor),
        forall|other: u128| proposals.contains_key(other) ==> (#[trigger] proposals[other]).id == other,
    ensures
        ({
            let after = voted(proposals, id, in_favor);
            let before = tally_in(proposals, id);
            &&& after.contains_key(id)
            &&& after[id].id == id
            &&& after[id].votes_for == before.votes_for + if in_favor {
                1int
            } else {
                0int
            }
            &&& after[id].votes_against == before.votes_against + if in_favor {
                0int
            } else {
                1int
            }
            &&& forall|other: u128|
                other != id && proposals.contains_key(other) ==> after.contains_key(other)
                    && #[trigger] after[other] == proposals[other]
            &&& forall|other: u128|
                after.contains_key(other) ==> other == id || proposals.contains_key(other)
        }),
{
}

} // verus!
