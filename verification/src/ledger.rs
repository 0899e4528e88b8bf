//! The balance ledger: one non-negative balance per account, changed only by
//! minting and by transfers between accounts.

use crate::account::AccountId;
use vstd::prelude::*;

verus! {

/// Why the ledger refused an operation. A refused operation changes nothing.
#[derive(Clone, Copy, Debug, PartialEq, Eq, Structural)]
pub enum LedgerError {
    /// The sender holds less than the amount to be moved.
    InsufficientBalance,
}

impl LedgerError {
    /// The error as a sentence.
    pub fn message(&self) -> (r: String)
        ensures
            r@ == "Insufficient balance"@,
    {
        "Insufficient balance".to_owned()
    }
}

/// The balance that `balances` records for `account`: an account that was
/// never touched holds nothing.
pub open spec fn balance_in(balances: Map<Seq<u8>, nat>, account: Seq<u8>) -> nat {
    if balances.contains_key(account) {
        balances[account]
    } else {
        0
    }
}

/// `balances` after `amount` is added to what `account` holds.
pub open spec fn credited(balances: Map<Seq<u8>, nat>, account: Seq<u8>, amount: nat) -> Map<
    Seq<u8>,
    nat,
> {
    balances.insert(account, balance_in(balances, account) + amount)
}

/// `balances` after `amount` is taken from what `account` holds.
pub open spec fn debited(balances: Map<Seq<u8>, nat>, account: Seq<u8>, amount: nat) -> Map<
    Seq<u8>,
    nat,
>
    recommends
        amount <= balance_in(balances, account),
{
    balances.insert(account, (balance_in(balances, account) - amount) as nat)
}

/// The sum of all balances.
pub open spec fn total_of(balances: Map<Seq<u8>, nat>) -> nat
    decreases balances.dom().len(),
    when balances.dom().finite()
{
    if balances.dom().len() == 0 {
        0
    } else {
        let account = balances.dom().choose();
        balances[account] + total_of(balances.remove(account))
    }
}

/// Whether the balance of `to` can still be represented once `amount` is
/// added to it.
pub open spec fn mint_fits(balances: Map<Seq<u8>, nat>, to: Seq<u8>, amount: nat) -> bool {
    balance_in(balances, to) + amount <= u128::MAX
}

/// What a transfer leaves behind: the balances after the debit and the
/// credit, or the reason why nothing moved. Nothing moves exactly when the
/// sender holds less than the amount. Sending to oneself is allowed and
/// leaves every balance as it was.
pub open spec fn transfer_outcome(
    balances: Map<Seq<u8>, nat>,
    from: Seq<u8>,
    to: Seq<u8>,
    amount: nat,
) -> Result<Map<Seq<u8>, nat>, LedgerError> {
    if balance_in(balances, from) < amount {
        Err(LedgerError::InsufficientBalance)
    } else {
        Ok(credited(debited(balances, from, amount), to, amount))
    }
}

/// Whether a transfer that the sender can afford leaves the receiver with a
/// balance that can still be represented. A transfer that the sender cannot
/// afford moves nothing, and so fits.
pub open spec fn transfer_fits(
    balances: Map<Seq<u8>, nat>,
    from: Seq<u8>,
    to: Seq<u8>,
    amount: nat,
) -> bool {
    balance_in(balances, from) >= amount ==> balance_in(debited(balances, from, amount), to)
        + amount <= u128::MAX
}

/// Taking one account out of the sum leaves the sum of the others.
pub proof fn lemma_total_remove(balances: Map<Seq<u8>, nat>, account: Seq<u8>)
    requires
        balances.dom().finite(),
        balances.contains_key(account),
    ensures
        total_of(balances) == balances[account] + total_of(balances.remove(account)),
    decreases balances.dom().len(),
{
    let chosen = balances.dom().choose();
    if chosen != account {
        lemma_total_remove(balances.remove(chosen), account);
        lemma_total_remove(balances.remove(account), chosen);
        assert(balances.remove(chosen).remove(account) =~= balances.remove(account).remove(
            chosen,
        ));
    }
}

/// Setting one balance changes the sum by the difference to the old balance.
pub proof fn lemma_total_insert(balances: Map<Seq<u8>, nat>, account: Seq<u8>, balance: nat)
    requires
        balances.dom().finite(),
    ensures
        total_of(balances.insert(account, balance)) + balance_in(balances, account) == total_of(
            balances,
        ) + balance,
{
    let updated = balances.insert(account, balance);
    lemma_total_remove(updated, account);
    assert(updated.remove(account) =~= balances.remove(account));
    if balances.contains_key(account) {
        lemma_total_remove(balances, account);
    } else {
        assert(balances.remove(account) =~= balances);
    }
}

/// A successful mint raises the sum of all balances by the minted amount.
pub proof fn lemma_mint_total(balances: Map<Seq<u8>, nat>, to: Seq<u8>, amount: nat)
    requires
        balances.dom().finite(),
    ensures
        credited(balances, to, amount).dom().finite(),
        total_of(credited(balances, to, amount)) == total_of(balances) + amount,
{
    lemma_total_insert(balances, to, balance_in(balances, to) + amount);
}

/// A transfer that the sender can afford leaves the sum of all balances
/// as it was.
pub proof fn lemma_transfer_total(
    balances: Map<Seq<u8>, nat>,
    from: Seq<u8>,
    to: Seq<u8>,
    amount: nat,
)
    requires
        balances.dom().finite(),
        amount <= balance_in(balances, from),
    ensures
        credited(debited(balances, from, amount), to, amount).dom().finite(),
        total_of(credited(debited(balances, from, amount), to, amount)) == total_of(balances),
{
    let after_debit = debited(balances, from, amount);
    lemma_total_insert(balances, from, (balance_in(balances, from) - amount) as nat);
    lemma_total_insert(after_debit, to, balance_in(after_debit, to) + amount);
}

/// One account with its balance.
struct Entry {
    account: AccountId,
    balance: u128,
}

/// The balances that a list of entries stands for.
spec fn balances_of(entries: Seq<Entry>) -> Map<Seq<u8>, nat>
    decreases entries.len(),
{
    if entries.len() == 0 {
        Map::empty()
    } else {
        balances_of(entries.drop_last()).insert(
            entries.last().account@,
            entries.last().balance as nat,
        )
    }
}

/// No account has two entries.
spec fn distinct_accounts(entries: Seq<Entry>) -> bool {
    forall|i: int, j: int|
        0 <= i < j < entries.len() ==> (#[trigger] entries[i]).account@ != (
        #[trigger] entries[j]).account@
}

proof fn lemma_balances_dom(entries: Seq<Entry>)
    ensures
        balances_of(entries).dom().finite(),
        forall|a: Seq<u8>|
            balances_of(entries).contains_key(a) <==> exists|i: int|
                0 <= i < entries.len() && (#[trigger] entries[i]).account@ == a,
    decreases entries.len(),
{
    if entries.len() > 0 {
        let rest = entries.drop_last();
        lemma_balances_dom(rest);
        assert forall|a: Seq<u8>| balances_of(entries).contains_key(a) implies exists|i: int|
            0 <= i < entries.len() && (#[trigger] entries[i]).account@ == a by {
            if a == entries.last().account@ {
                assert(entries[entries.len() - 1].account@ == a);
            } else {
                let i = choose|i: int| 0 <= i < rest.len() && (#[trigger] rest[i]).account@ == a;
                assert(entries[i].account@ == a);
            }
        }
        assert forall|a: Seq<u8>|
            (exists|i: int|
                0 <= i < entries.len() && (#[trigger] entries[i]).account@
                    == a) implies balances_of(entries).contains_key(a) by {
            let i = choose|i: int| 0 <= i < entries.len() && (#[trigger] entries[i]).account@ == a;
            if i < entries.len() - 1 {
                assert(rest[i].account@ == a);
            }
        }
    }
}

proof fn lemma_balances_lookup(entries: Seq<Entry>, i: int)
    requires
        distinct_accounts(entries),
        0 <= i < entries.len(),
    ensures
        balances_of(entries).contains_key(entries[i].account@),
        balances_of(entries)[entries[i].account@] == entries[i].balance,
    decreases entries.len(),
{
    if i < entries.len() - 1 {
        let rest = entries.drop_last();
        assert(rest[i] == entries[i]);
        assert(distinct_accounts(rest)) by {
            assert forall|p: int, q: int| 0 <= p < q < rest.len() implies (#[trigger] rest[p]).account@
                != (#[trigger] rest[q]).account@ by {
                assert(rest[p] == entries[p] && rest[q] == entries[q]);
            }
        }
        lemma_balances_lookup(rest, i);
        assert(entries[i].account@ != entries[entries.len() - 1].account@);
    }
}

proof fn lemma_balances_update(entries: Seq<Entry>, i: int, entry: Entry)
    requires
        distinct_accounts(entries),
        0 <= i < entries.len(),
        entry.account@ == entries[i].account@,
    ensures
        distinct_accounts(entries.update(i, entry)),
        balances_of(entries.update(i, entry)) == balances_of(entries).insert(
            entry.account@,
            entry.balance as nat,
        ),
    decreases entries.len(),
{
    let updated = entries.update(i, entry);
    let rest = entries.drop_last();
    let last = entries.last();
    assert forall|p: int, q: int| 0 <= p < q < updated.len() implies (#[trigger] updated[p]).account@
        != (#[trigger] updated[q]).account@ by {
        assert(updated[p].account@ == entries[p].account@);
        assert(updated[q].account@ == entries[q].account@);
    }
    if i == entries.len() - 1 {
        assert(updated.drop_last() =~= rest);
        assert(balances_of(updated) =~= balances_of(entries).insert(
            entry.account@,
            entry.balance as nat,
        ));
    } else {
        assert(updated.drop_last() =~= rest.update(i, entry));
        assert(updated.last() == last);
        assert(rest[i] == entries[i]);
        assert(distinct_accounts(rest)) by {
            assert forall|p: int, q: int| 0 <= p < q < rest.len() implies (#[trigger] rest[p]).account@
                != (#[trigger] rest[q]).account@ by {
                assert(rest[p] == entries[p] && rest[q] == entries[q]);
            }
        }
        lemma_balances_update(rest, i, entry);
        assert(entries[i].account@ != entries[entries.len() - 1].account@);
        assert(balances_of(updated) =~= balances_of(entries).insert(
            entry.account@,
            entry.balance as nat,
        ));
    }
}

/// The balance ledger.
pub struct Ledger {
    entries: Vec<Entry>,
}

impl View for Ledger {
    type V = Map<Seq<u8>, nat>;

    closed spec fn view(&self) -> Map<Seq<u8>, nat> {
        balances_of(self.entries@)
    }
}

impl Ledger {
    /// The ledger's invariant: every account is recorded at most once.
    pub closed spec fn wf(&self) -> bool {
        distinct_accounts(self.entries@)
    }

    /// A well-formed ledger records finitely many accounts, and no balance
    /// beyond the largest representable amount.
    pub proof fn lemma_bounded(&self)
        requires
            self.wf(),
        ensures
            self@.dom().finite(),
            forall|a: Seq<u8>| self@.contains_key(a) ==> #[trigger] self@[a] <= u128::MAX,
    {
        lemma_balances_dom(self.entries@);
        assert forall|a: Seq<u8>| self@.contains_key(a) implies #[trigger] self@[a]
            <= u128::MAX by {
            let i = choose|i: int|
                0 <= i < self.entries@.len() && (#[trigger] self.entries@[i]).account@ == a;
            lemma_balances_lookup(self.entries@, i);
        }
    }

    /// A ledger in which no account holds anything.
    pub fn new() -> (r: Ledger)
        ensures
            r.wf(),
            r@ == Map::<Seq<u8>, nat>::empty(),
    {
        Ledger { entries: Vec::new() }
    }

    /// Where `account` is recorded, if it is.
    fn position(&self, account: &AccountId) -> (r: Option<usize>)
        ensures
            match r {
                Some(i) => i < self.entries@.len() && self.entries@[i as int].account@
                    == account@,
                None => forall|j: int|
                    0 <= j < self.entries@.len() ==> (#[trigger] self.entries@[j]).account@
                        != account@,
            },
    {
        let mut i: usize = 0;
        while i < self.entries.len()
            invariant
                i <= self.entries@.len(),
                forall|j: int| 0 <= j < i ==> (#[trigger] self.entries@[j]).account@ != account@,
            decreases self.entries@.len() - i,
        {
            if self.entries[i].account == *account {
                return Some(i);
            }
            i += 1;
        }
        None
    }

    /// Records `balance` for `account`, whatever it held before.
    fn set_balance(&mut self, account: &AccountId, balance: u128)
        requires
            old(self).wf(),
        ensures
            final(self).wf(),
            final(self)@ == old(self)@.insert(account@, balance as nat),
    {
        let entry = Entry { account: account.clone(), balance };
        match self.position(account) {
            Some(i) => {
                proof {
                    lemma_balances_update(self.entries@, i as int, entry);
                }
                self.entries.set(i, entry);
            },
            None => {
                proof {
                    assert(self.entries@.push(entry).drop_last() =~= self.entries@);
                    assert forall|p: int, q: int|
                        0 <= p < q < self.entries@.push(entry).len() implies (
                    #[trigger] self.entries@.push(entry)[p]).account@ != (
                    #[trigger] self.entries@.push(entry)[q]).account@ by {
                        assert(self.entries@.push(entry)[p] == self.entries@[p]);
                        if q < self.entries@.len() {
                            assert(self.entries@.push(entry)[q] == self.entries@[q]);
                        }
                    }
                }
                self.entries.push(entry);
            },
        }
    }

    /// What `account` holds; nothing, if it was never touched.
    pub fn balance_of(&self, account: &AccountId) -> (r: u128)
        requires
            self.wf(),
        ensures
            r == balance_in(self@, account@),
    {
        proof {
            lemma_balances_dom(self.entries@);
        }
        match self.position(account) {
            Some(i) => {
                proof {
                    lemma_balances_lookup(self.entries@, i as int);
                }
                self.entries[i].balance
            },
            None => 0,
        }
    }

    /// Whether `amount` can be minted for `to`: whether the balance of `to`
    /// could still be represented afterwards.
    pub fn mint_fits(&self, to: &AccountId, amount: u128) -> (r: bool)
        requires
            self.wf(),
        ensures
            r == mint_fits(self@, to@, amount as nat),
    {
        self.balance_of(to).checked_add(amount).is_some()
    }

    /// Creates `amount` and adds it to what `to` holds. It always succeeds.
    ///
    /// The new balance must be representable: [`Ledger::mint_fits`] tells.
    pub fn mint(&mut self, to: &AccountId, amount: u128) -> (r: Result<(), LedgerError>)
        requires
            old(self).wf(),
            mint_fits(old(self)@, to@, amount as nat),
        ensures
            final(self).wf(),
            r == Ok::<(), LedgerError>(()),
            final(self)@ == credited(old(self)@, to@, amount as nat),
            total_of(final(self)@) == total_of(old(self)@) + amount,
    {
        proof {
            self.lemma_bounded();
            lemma_mint_total(self@, to@, amount as nat);
        }
        let raised = self.balance_of(to) + amount;
        self.set_balance(to, raised);
        Ok(())
    }

    /// Whether a transfer of `amount` from `from` to `to` fits: whether the
    /// balance of `to` could still be represented afterwards. A transfer that
    /// `from` cannot afford always fits, for it moves nothing.
    pub fn transfer_fits(&self, from: &AccountId, to: &AccountId, amount: u128) -> (r: bool)
        requires
            self.wf(),
        ensures
            r == transfer_fits(self@, from@, to@, amount as nat),
    {
        proof {
            self.lemma_bounded();
        }
        let held = self.balance_of(from);
        if held < amount || *from == *to {
            true
        } else {
            self.balance_of(to).checked_add(amount).is_some()
        }
    }

    /// Moves `amount` from `from` to `to`. Refused, with nothing changed,
    /// exactly when `from` holds less than `amount`.
    ///
    /// The transfer must fit: [`Ledger::transfer_fits`] tells.
    pub fn transfer(&mut self, from: &AccountId, to: &AccountId, amount: u128) -> (r: Result<
        u128,
        LedgerError,
    >)
        requires
            old(self).wf(),
            transfer_fits(old(self)@, from@, to@, amount as nat),
        ensures
            final(self).wf(),
            match transfer_outcome(old(self)@, from@, to@, amount as nat) {
                Ok(balances) => r == Ok::<u128, LedgerError>(amount) && final(self)@ == balances
                    && total_of(final(self)@) == total_of(old(self)@),
                Err(e) => r == Err::<u128, LedgerError>(e) && final(self)@ == old(self)@,
            },
    {
        let held = self.balance_of(from);
        if held < amount {
            return Err(LedgerError::InsufficientBalance);
        }
        proof {
            self.lemma_bounded();
            lemma_transfer_total(self@, from@, to@, amount as nat);
        }
        self.set_balance(from, held - amount);
        let received = self.balance_of(to) + amount;
        self.set_balance(to, received);
        Ok(amount)
    }
}

} // verus!
