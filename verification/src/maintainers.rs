//! The set of maintainers.

use crate::account::AccountId;
use vstd::prelude::*;

verus! {

/// The identifiers in a list of accounts, in the list's order.
pub open spec fn ids_of(accounts: Seq<AccountId>) -> Seq<Seq<u8>> {
    accounts.map_values(|account: AccountId| account@)
}

/// The accounts that maintain the service.
pub struct Maintainers {
    members: Vec<AccountId>,
}

impl View for Maintainers {
    type V = Set<Seq<u8>>;

    closed spec fn view(&self) -> Set<Seq<u8>> {
        ids_of(self.members@).to_set()
    }
}

/// Whether `account` is among `members`.
fn listed(members: &Vec<AccountId>, account: &AccountId) -> (r: bool)
    ensures
        r == ids_of(members@).contains(account@),
{
    let mut i: usize = 0;
    while i < members.len()
        invariant
            i <= members@.len(),
            forall|j: int| 0 <= j < i ==> ids_of(members@)[j] != account@,
        decreases members@.len() - i,
    {
        if members[i] == *account {
            assert(ids_of(members@)[i as int] == account@);
            return true;
        }
        i += 1;
    }
    false
}

impl Maintainers {
    /// The invariant: no maintainer is kept twice.
    pub closed spec fn wf(&self) -> bool {
        ids_of(self.members@).no_duplicates()
    }

    /// No maintainers.
    pub fn new() -> (r: Maintainers)
        ensures
            r.wf(),
            r@ == Set::<Seq<u8>>::empty(),
    {
        let r = Maintainers { members: Vec::new() };
        assert(r@ =~= Set::<Seq<u8>>::empty());
        r
    }

    /// Whether `account` is a maintainer.
    pub fn contains(&self, account: &AccountId) -> (r: bool)
        ensures
            r == self@.contains(account@),
    {
        listed(&self.members, account)
    }

    /// Replaces the maintainers by the accounts in `principals`, and returns
    /// how many maintainers there are then: an account that is listed more
    /// than once counts once.
    pub fn update(&mut self, principals: Vec<AccountId>) -> (r: u128)
        ensures
            final(self).wf(),
            final(self)@ == ids_of(principals@).to_set(),
            final(self)@.finite(),
            r == final(self)@.len(),
    {
        let mut kept: Vec<AccountId> = Vec::new();
        let mut i: usize = 0;
        assert(ids_of(kept@).to_set() =~= ids_of(principals@.take(0)).to_set());
        while i < principals.len()
            invariant
                i <= principals@.len(),
                ids_of(kept@).no_duplicates(),
                ids_of(kept@).to_set() == ids_of(principals@.take(i as int)).to_set(),
            decreases principals@.len() - i,
        {
            let candidate = &principals[i];
            let ghost before = ids_of(kept@);
            let ghost read = ids_of(principals@.take(i as int));
            proof {
                assert(ids_of(principals@.take(i + 1)) =~= read.push(candidate@));
                read.lemma_push_to_set_commute(candidate@);
                before.lemma_push_to_set_commute(candidate@);
                assert(before.contains(candidate@) == before.to_set().contains(candidate@));
            }
            if !listed(&kept, candidate) {
                kept.push(candidate.clone());
                assert(ids_of(kept@) =~= before.push(candidate@));
            } else {
                assert(before.to_set().insert(candidate@) =~= before.to_set());
            }
            i += 1;
        }
        assert(principals@.take(principals@.len() as int) =~= principals@);
        proof {
            ids_of(kept@).unique_seq_to_set();
        }
        let count = kept.len();
        self.members = kept;
        count as u128
    }
}

} // verus!
