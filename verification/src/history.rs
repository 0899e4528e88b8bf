//! The transaction history: every completed transfer, in the order in which
//! the transfers completed. Records are only ever added at the end.

use crate::account::AccountId;
use vstd::prelude::*;

verus! {

/// One completed transfer.
#[derive(Debug, PartialEq, Eq)]
pub struct Transaction {
    /// When the transfer completed.
    pub timestamp: i64,
    /// The account that paid.
    pub from: AccountId,
    /// The account that was paid.
    pub to: AccountId,
    /// The amount that moved.
    pub amount: u128,
    /// The fee that was burned.
    pub fee: u128,
    /// A note attached to the transfer.
    pub memo: Option<Vec<u8>>,
}

/// What a [`Transaction`] says, as plain values.
pub struct Record {
    pub timestamp: i64,
    pub from: Seq<u8>,
    pub to: Seq<u8>,
    pub amount: u128,
    pub fee: u128,
    pub memo: Option<Seq<u8>>,
}

impl View for Transaction {
    type V = Record;

    open spec fn view(&self) -> Record {
        Record {
            timestamp: self.timestamp,
            from: self.from@,
            to: self.to@,
            amount: self.amount,
            fee: self.fee,
            memo: match self.memo {
                Some(bytes) => Some(bytes@),
                None => None,
            },
        }
    }
}

impl Clone for Transaction {
    fn clone(&self) -> (r: Self)
        ensures
            r@ == self@,
    {
        let memo = match &self.memo {
            Some(bytes) => {
                let copy = bytes.clone();
                assert(copy@ =~= bytes@);
                Some(copy)
            },
            None => None,
        };
        Transaction {
            timestamp: self.timestamp,
            from: self.from.clone(),
            to: self.to.clone(),
            amount: self.amount,
            fee: self.fee,
            memo,
        }
    }
}

/// The record of a transfer of `amount` from `from` to `to` at `timestamp`:
/// no fee is charged and no memo attached.
pub open spec fn transfer_record(timestamp: i64, from: Seq<u8>, to: Seq<u8>, amount: u128) -> Record {
    Record { timestamp, from, to, amount, fee: 0, memo: None }
}

/// What a list of transactions says, record by record.
pub open spec fn records_of(transactions: Seq<Transaction>) -> Seq<Record> {
    transactions.map_values(|t: Transaction| t@)
}

/// Whether `account` paid or was paid in `record`.
pub open spec fn involves(record: Record, account: Seq<u8>) -> bool {
    record.from == account || record.to == account
}

/// The test that picks the records in which `account` takes part.
pub open spec fn involving(account: Seq<u8>) -> spec_fn(Record) -> bool {
    |record: Record| involves(record, account)
}

/// At most `length` items of `items`, beginning at position `start`: fewer
/// where `items` ends earlier, none where `start` lies past its end.
pub open spec fn window<T>(items: Seq<T>, start: nat, length: nat) -> Seq<T> {
    let first = if start < items.len() {
        start
    } else {
        items.len()
    };
    let end = if start + length < items.len() {
        start + length
    } else {
        items.len()
    };
    items.subrange(first as int, end as int)
}

/// What is selected from the beginning of a list is the beginning of what
/// is selected from the whole list.
proof fn lemma_filter_prefix<T>(items: Seq<T>, i: int, keep: spec_fn(T) -> bool)
    requires
        0 <= i <= items.len(),
    ensures
        items.take(i).filter(keep).len() <= items.filter(keep).len(),
        items.filter(keep).take(items.take(i).filter(keep).len() as int) == items.take(i).filter(
            keep,
        ),
    decreases items.len(),
{
    reveal(Seq::filter);
    if i == items.len() {
        assert(items.take(i) =~= items);
        assert(items.filter(keep).take(items.filter(keep).len() as int) =~= items.filter(keep));
    } else {
        let rest = items.drop_last();
        assert(items.take(i) =~= rest.take(i));
        lemma_filter_prefix(rest, i, keep);
        let shown = rest.take(i).filter(keep);
        assert(items.filter(keep).take(shown.len() as int) =~= rest.filter(keep).take(
            shown.len() as int,
        ));
    }
}

/// The append-only transaction history.
pub struct TransactionLog {
    entries: Vec<Transaction>,
}

impl View for TransactionLog {
    type V = Seq<Record>;

    closed spec fn view(&self) -> Seq<Record> {
        records_of(self.entries@)
    }
}

impl TransactionLog {
    /// An empty history.
    pub fn new() -> (r: TransactionLog)
        ensures
            r@ == Seq::<Record>::empty(),
    {
        let r = TransactionLog { entries: Vec::new() };
        assert(r@ =~= Seq::<Record>::empty());
        r
    }

    /// Adds `transaction` at the end. Only a completed transfer does this.
    pub(crate) fn append(&mut self, transaction: Transaction)
        ensures
            final(self)@ == old(self)@.push(transaction@),
    {
        self.entries.push(transaction);
        assert(self@ =~= old(self)@.push(transaction@));
    }

    /// The number of recorded transactions.
    pub fn len(&self) -> (r: usize)
        ensures
            r == self@.len(),
    {
        self.entries.len()
    }

    /// The transaction at position `index`, counted from 0 in the order of
    /// recording; `None` past the end.
    pub fn get(&self, index: usize) -> (r: Option<Transaction>)
        ensures
            match r {
                Some(t) => index < self@.len() && t@ == self@[index as int],
                None => index >= self@.len(),
            },
    {
        if index < self.entries.len() {
            Some(self.entries[index].clone())
        } else {
            None
        }
    }

    /// Up to `length` transactions beginning at position `start`, in the
    /// order of recording.
    pub fn get_range(&self, start: usize, length: usize) -> (r: Vec<Transaction>)
        ensures
            records_of(r@) == window(self@, start as nat, length as nat),
    {
        let count = self.entries.len();
        let first = if start < count {
            start
        } else {
            count
        };
        let mut out: Vec<Transaction> = Vec::new();
        let mut i: usize = first;
        while i < count && out.len() < length
            invariant
                count == self.entries@.len(),
                first <= i <= count,
                out@.len() == i - first,
                out@.len() <= length,
                records_of(out@) =~= self@.subrange(first as int, i as int),
            decreases count - i,
        {
            out.push(self.entries[i].clone());
            i += 1;
        }
        out
    }

    /// Up to `length` of the transactions in which `account` paid or was
    /// paid, in the order of recording, after skipping the first `start` of
    /// them.
    pub fn get_account_range(&self, account: &AccountId, start: usize, length: usize) -> (r: Vec<
        Transaction,
    >)
        ensures
            records_of(r@) == window(
                self@.filter(involving(account@)),
                start as nat,
                length as nat,
            ),
    {
        let count = self.entries.len();
        let mut out: Vec<Transaction> = Vec::new();
        let mut seen: usize = 0;
        let mut i: usize = 0;
        proof {
            reveal(Seq::filter);
            assert(self@.take(0) =~= Seq::<Record>::empty());
        }
        while i < count && out.len() < length
            invariant
                count == self.entries@.len(),
                i <= count,
                seen <= i,
                seen == self@.take(i as int).filter(involving(account@)).len(),
                records_of(out@) =~= window(
                    self@.take(i as int).filter(involving(account@)),
                    start as nat,
                    length as nat,
                ),
            decreases count - i,
        {
            let ghost shown = records_of(out@);
            proof {
                assert(self@.take(i + 1) =~= self@.take(i as int).push(self@[i as int]));
                self@.take(i as int).lemma_filter_push(self@[i as int], involving(account@));
            }
            let entry = &self.entries[i];
            if entry.from == *account || entry.to == *account {
                if seen >= start {
                    out.push(entry.clone());
                    assert(records_of(out@) =~= shown.push(self@[i as int]));
                }
                seen += 1;
            }
            i += 1;
        }
        proof {
            let matched = self@.take(i as int).filter(involving(account@));
            let all = self@.filter(involving(account@));
            lemma_filter_prefix(self@, i as int, involving(account@));
            if i < count {
                assert(window(matched, start as nat, length as nat) =~= window(
                    all,
                    start as nat,
                    length as nat,
                ));
            } else {
                assert(self@.take(count as int) =~= self@);
            }
        }
        out
    }
}

} // verus!
