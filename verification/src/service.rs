//! The service: the one owner of all state, and the single entry point for
//! every call.
//!
//! A call is one method call on [`Service`]. It takes the caller's identity
//! and the current time as arguments where it needs them, runs to
//! completion, and either takes effect or leaves the whole state as it was.
//!
//! Three calls add to a number that must stay representable: a mint and a
//! transfer to a balance, an offer to the total amount, a vote to a tally. A
//! call that would pass the limit is not made at all: each of these calls
//! has a companion that tells whether it fits, and asks its caller to make
//! sure of that first.

use crate::account::AccountId;
use crate::history::{
    involving, records_of, transfer_record, window, Record, Transaction, TransactionLog,
};
use crate::ledger::{
    balance_in, credited, mint_fits, total_of, transfer_fits, transfer_outcome, Ledger,
    LedgerError,
};
use crate::maintainers::{ids_of, Maintainers};
use crate::modules::{checksum_text, ModuleError, ModuleStore};
use crate::offers::{
    after_accepting, offer_fits, offer_verdict, opening_offer, outbids, verdict_text, BestOffer,
    Offer, OfferRegistry, OfferVerdict, SubmitOfferResponse,
};
use crate::proposals::{vote_fits, voted, Proposal, ProposalRegistry};
use crate::solutions::{
    after_valid, challenge_at, opening_terms, solution_verdict, BestSolution, Challenge,
    Solution, SolutionAccepted, SolutionRegistry, SolutionRejected, SolutionVerdict, Terms,
    OPENING_CUR_MIN_ONES,
};
use crate::token::{
    TokenSupply, AVAILABLE_TOKEN_SUPPLY, TOKEN_DECIMALS, TOKEN_NAME, TOKEN_SYMBOL,
    TOKEN_TOTAL_SUPPLY, WASM_UPDATE_TICKET,
};
use vstd::prelude::*;

verus! {

/// Everything the service remembers, as plain values.
pub struct ServiceState {
    /// The balance of every account that was ever touched.
    pub balances: Map<Seq<u8>, nat>,
    /// The completed transfers, in the order of completion.
    pub history: Seq<Record>,
    /// The maintainers.
    pub maintainers: Set<Seq<u8>>,
    /// The proposals that were voted on.
    pub proposals: Map<u128, Proposal>,
    /// The stored module, if any.
    pub module: Option<Seq<u8>>,
    /// The terms of the current challenge.
    pub terms: Terms,
    /// The record of the strongest accepted solution.
    pub best_solution: BestSolution,
    /// The best offer.
    pub best_offer: BestOffer,
}

/// The state after a call to mint `amount` for `to`: the balance of `to` is
/// raised by `amount`.
pub open spec fn after_mint(state: ServiceState, to: Seq<u8>, amount: u128) -> ServiceState {
    ServiceState { balances: credited(state.balances, to, amount as nat), ..state }
}

/// The state after a call by `caller` to transfer `amount` to `to` at
/// `timestamp`: the amount has moved and the transfer is recorded at the end
/// of the history, unless the caller holds less than the amount, in which
/// case nothing changes.
pub open spec fn after_transfer(
    state: ServiceState,
    caller: Seq<u8>,
    to: Seq<u8>,
    amount: u128,
    timestamp: i64,
) -> ServiceState {
    match transfer_outcome(state.balances, caller, to, amount as nat) {
        Ok(balances) => ServiceState {
            balances,
            history: state.history.push(transfer_record(timestamp, caller, to, amount)),
            ..state
        },
        Err(_) => state,
    }
}

/// The service.
pub struct Service {
    ledger: Ledger,
    log: TransactionLog,
    maintainers: Maintainers,
    proposals: ProposalRegistry,
    modules: ModuleStore,
    solutions: SolutionRegistry,
    offers: OfferRegistry,
}

impl View for Service {
    type V = ServiceState;

    closed spec fn view(&self) -> ServiceState {
        ServiceState {
            balances: self.ledger@,
            history: self.log@,
            maintainers: self.maintainers@,
            proposals: self.proposals@,
            module: self.modules@,
            terms: self.solutions.terms(),
            best_solution: self.solutions.best(),
            best_offer: self.offers@,
        }
    }
}

impl Service {
    /// The invariant of the service's parts. It holds of a new service and
    /// every call keeps it.
    pub closed spec fn wf(&self) -> bool {
        &&& self.ledger.wf()
        &&& self.maintainers.wf()
        &&& self.proposals.wf()
    }

    /// In a well-formed service finitely many accounts hold a balance, no
    /// balance exceeds the largest representable amount, and every proposal
    /// is filed under its own identifier.
    pub proof fn lemma_wf(&self)
        requires
            self.wf(),
        ensures
            self@.balances.dom().finite(),
            forall|a: Seq<u8>|
                self@.balances.contains_key(a) ==> #[trigger] self@.balances[a] <= u128::MAX,
            forall|id: u128|
                self@.proposals.contains_key(id) ==> (#[trigger] self@.proposals[id]).id == id,
    {
        self.ledger.lemma_bounded();
    }

    /// A service in its first state: no balances, no history, no
    /// maintainers, no proposals, no module, the opening challenge with the
    /// opening strength on record, and the opening offer.
    pub fn new() -> (r: Service)
        ensures
            r.wf(),
            r@ == (ServiceState {
                balances: Map::empty(),
                history: Seq::empty(),
                maintainers: Set::empty(),
                proposals: Map::empty(),
                module: None,
                terms: opening_terms(),
                best_solution: BestSolution { time: 0, cur_min_ones: OPENING_CUR_MIN_ONES },
                best_offer: opening_offer(),
            }),
    {
        Service {
            ledger: Ledger::new(),
            log: TransactionLog::new(),
            maintainers: Maintainers::new(),
            proposals: ProposalRegistry::new(),
            modules: ModuleStore::new(),
            solutions: SolutionRegistry::new(),
            offers: OfferRegistry::new(),
        }
    }

    /// The declared total supply.
    pub fn icrc1_total_supply(&self) -> (r: u128)
        ensures
            r == TOKEN_TOTAL_SUPPLY,
    {
        TOKEN_TOTAL_SUPPLY
    }

    /// Whether a transfer of `amount` from `caller` to `to` fits: whether the
    /// balance of `to` could still be represented afterwards. A transfer
    /// that `caller` cannot afford always fits, for it moves nothing.
    pub fn transfer_fits(&self, caller: &AccountId, to: &AccountId, amount: u128) -> (r: bool)
        requires
            self.wf(),
        ensures
            r == transfer_fits(self@.balances, caller@, to@, amount as nat),
    {
        self.ledger.transfer_fits(caller, to, amount)
    }

    /// Moves `amount` from `caller` to `to` and records the transfer with
    /// `timestamp`, no fee and no memo.
    ///
    /// The transfer is refused, and nothing changes, exactly when `caller`
    /// holds less than `amount`. A transfer of nothing, and a transfer to
    /// oneself, are carried out and recorded like any other.
    ///
    /// The transfer must fit: [`Service::transfer_fits`] tells. A caller
    /// ends a call that does not fit without making it.
    pub fn icrc2_transfer(
        &mut self,
        caller: AccountId,
        to: AccountId,
        amount: u128,
        timestamp: i64,
    ) -> (r: Result<u128, LedgerError>)
        requires
            old(self).wf(),
            transfer_fits(old(self)@.balances, caller@, to@, amount as nat),
        ensures
            final(self).wf(),
            final(self)@ == after_transfer(old(self)@, caller@, to@, amount, timestamp),
            balance_in(old(self)@.balances, caller@) < amount ==> r == Err::<u128, LedgerError>(
                LedgerError::InsufficientBalance,
            ) && final(self)@ == old(self)@,
            balance_in(old(self)@.balances, caller@) >= amount ==> r == Ok::<u128, LedgerError>(
                amount,
            ) && final(self)@.history == old(self)@.history.push(
                transfer_record(timestamp, caller@, to@, amount),
            ),
            total_of(final(self)@.balances) == total_of(old(self)@.balances),
    {
        match self.ledger.transfer(&caller, &to, amount) {
            Ok(moved) => {
                self.log.append(
                    Transaction { timestamp, from: caller, to, amount, fee: 0, memo: None },
                );
                Ok(moved)
            },
            Err(e) => Err(e),
        }
    }

    /// What `account` holds; nothing, if it was never touched.
    pub fn icrc2_balance_of(&self, account: &AccountId) -> (r: u128)
        requires
            self.wf(),
        ensures
            r == balance_in(self@.balances, account@),
    {
        self.ledger.balance_of(account)
    }

    /// The token's name.
    pub fn icrc2_name(&self) -> (r: String)
        ensures
            r@ == TOKEN_NAME@,
    {
        TOKEN_NAME.to_owned()
    }

    /// The token's ticker symbol.
    pub fn icrc2_symbol(&self) -> (r: String)
        ensures
            r@ == TOKEN_SYMBOL@,
    {
        TOKEN_SYMBOL.to_owned()
    }

    /// The number of decimal places in which amounts are shown.
    pub fn icrc2_decimals(&self) -> (r: u8)
        ensures
            r == TOKEN_DECIMALS,
    {
        TOKEN_DECIMALS
    }

    /// Whether `amount` can be minted for `to`: whether the balance of `to`
    /// could still be represented afterwards.
    pub fn mint_fits(&self, to: &AccountId, amount: u128) -> (r: bool)
        requires
            self.wf(),
        ensures
            r == mint_fits(self@.balances, to@, amount as nat),
    {
        self.ledger.mint_fits(to, amount)
    }

    /// Creates `amount` and adds it to what `to` holds. The declared total
    /// supply sets no limit, and the call always succeeds.
    ///
    /// The mint must fit: [`Service::mint_fits`] tells. A caller ends a call
    /// that does not fit without making it.
    pub fn mint(&mut self, to: &AccountId, amount: u128) -> (r: Result<(), LedgerError>)
        requires
            old(self).wf(),
            mint_fits(old(self)@.balances, to@, amount as nat),
        ensures
            final(self).wf(),
            r == Ok::<(), LedgerError>(()),
            final(self)@ == after_mint(old(self)@, to@, amount),
            total_of(final(self)@.balances) == total_of(old(self)@.balances) + amount,
    {
        self.ledger.mint(to, amount)
    }

    /// Up to `length` transactions beginning at position `start`, in the
    /// order of completion: fewer where the history ends earlier, none where
    /// `start` lies past its end.
    pub fn icrc3_get_transactions(&self, start: usize, length: usize) -> (r: Vec<Transaction>)
        ensures
            records_of(r@) == window(self@.history, start as nat, length as nat),
    {
        self.log.get_range(start, length)
    }

    /// The transaction at position `index`, counted from 0 in the order of
    /// completion; `None` past the end of the history.
    pub fn icrc3_get_transaction(&self, index: usize) -> (r: Option<Transaction>)
        ensures
            match r {
                Some(t) => index < self@.history.len() && t@ == self@.history[index as int],
                None => index >= self@.history.len(),
            },
    {
        self.log.get(index)
    }

    /// Up to `length` of the transactions in which `account` paid or was
    /// paid, in the order of completion, after skipping the first `start`
    /// of them.
    pub fn icrc3_get_account_transactions(
        &self,
        account: &AccountId,
        start: usize,
        length: usize,
    ) -> (r: Vec<Transaction>)
        ensures
            records_of(r@) == window(
                self@.history.filter(involving(account@)),
                start as nat,
                length as nat,
            ),
    {
        self.log.get_account_range(account, start, length)
    }

    /// The current challenge, read at `now`: its terms, with `now` as its
    /// time.
    pub fn get_challenge(&self, now: u64) -> (r: Challenge)
        ensures
            r@ == challenge_at(self@.terms, now),
            r@.time == now,
    {
        self.solutions.get_challenge(now)
    }

    /// Submits `solution` at time `now`.
    ///
    /// A valid solution is accepted. The record of the strongest solution
    /// changes only for a solution that is strictly stronger than every one
    /// before; the answer carries `now` and the strength that is on record
    /// afterwards. Any other solution is rejected and changes nothing.
    pub fn submit_solution(&mut self, solution: &Solution, now: u64) -> (r: Result<
        SolutionAccepted,
        SolutionRejected,
    >)
        requires
            old(self).wf(),
        ensures
            final(self).wf(),
            final(self)@.best_solution.cur_min_ones >= old(self)@.best_solution.cur_min_ones,
            match solution_verdict(old(self)@.terms, solution.bytes@) {
                SolutionVerdict::Valid { strength } => {
                    &&& final(self)@ == ServiceState {
                        best_solution: after_valid(old(self)@.best_solution, strength, now),
                        ..old(self)@
                    }
                    &&& r == Ok::<SolutionAccepted, SolutionRejected>(
                        SolutionAccepted {
                            time: now,
                            cur_min_ones: final(self)@.best_solution.cur_min_ones,
                        },
                    )
                },
                SolutionVerdict::Stale => {
                    &&& final(self)@ == old(self)@
                    &&& r == Err::<SolutionAccepted, SolutionRejected>(
                        SolutionRejected::ChallengeMismatch,
                    )
                },
                SolutionVerdict::TooWeak => {
                    &&& final(self)@ == old(self)@
                    &&& r == Err::<SolutionAccepted, SolutionRejected>(
                        SolutionRejected::InvalidSolution,
                    )
                },
                SolutionVerdict::Malformed => {
                    &&& final(self)@ == old(self)@
                    &&& r matches Err(SolutionRejected::Other(reason))
                    &&& reason@ == "Solution payload is shorter than its header"@
                },
            },
    {
        self.solutions.submit(solution, now)
    }

    /// The record of the strongest accepted solution.
    pub fn get_best_solution(&self) -> (r: BestSolution)
        ensures
            r == self@.best_solution,
    {
        self.solutions.get_best()
    }

    /// The available supply, reported at time `now`.
    pub fn get_available_token_supply(&self, now: u64) -> (r: TokenSupply)
        ensures
            r == (TokenSupply { time: now, total_amount: AVAILABLE_TOKEN_SUPPLY }),
    {
        TokenSupply { time: now, total_amount: AVAILABLE_TOKEN_SUPPLY }
    }

    /// Whether the total amount can still be represented once `offer` is
    /// dealt with. An offer that is turned down adds nothing, and so fits.
    pub fn offer_fits(&self, offer: Offer) -> (r: bool)
        ensures
            r == offer_fits(self@.best_offer, offer),
    {
        self.offers.fits(offer)
    }

    /// Submits `offer`. It is accepted, and becomes the best offer, exactly
    /// when it attaches cycles and ranks strictly above the best offer so
    /// far. Otherwise it is rejected with the reason, and nothing changes.
    ///
    /// The offer must fit: [`Service::offer_fits`] tells. A caller ends a
    /// call that does not fit without making it.
    pub fn submit_offer(&mut self, offer: Offer) -> (r: SubmitOfferResponse)
        requires
            old(self).wf(),
            offer_fits(old(self)@.best_offer, offer),
        ensures
            final(self).wf(),
            r == SubmitOfferResponse::Accepted <==> offer.num_attached_cycles > 0 && outbids(
                offer,
                old(self)@.best_offer,
            ),
            match offer_verdict(old(self)@.best_offer, offer) {
                OfferVerdict::Accept => {
                    &&& r == SubmitOfferResponse::Accepted
                    &&& final(self)@ == ServiceState {
                        best_offer: after_accepting(old(self)@.best_offer, offer),
                        ..old(self)@
                    }
                },
                verdict => {
                    &&& r matches SubmitOfferResponse::Rejected(reason)
                    &&& reason@ == verdict_text(verdict)
                    &&& final(self)@ == old(self)@
                },
            },
    {
        self.offers.submit(offer)
    }

    /// The best offer: the opening offer before any offer is accepted.
    pub fn get_best_offer(&self) -> (r: BestOffer)
        ensures
            r == self@.best_offer,
    {
        self.offers.get_best()
    }

    /// Stores `module` in place of the module stored before, and answers
    /// with its checksum text. An empty module is refused and changes
    /// nothing.
    pub fn upload_wasm_module(&mut self, module: Vec<u8>) -> (r: Result<String, ModuleError>)
        requires
            old(self).wf(),
        ensures
            final(self).wf(),
            module@.len() == 0 ==> ({
                &&& r == Err::<String, ModuleError>(ModuleError::Empty)
                &&& final(self)@ == old(self)@
            }),
            module@.len() > 0 ==> ({
                &&& final(self)@ == ServiceState { module: Some(module@), ..old(self)@ }
                &&& r matches Ok(text)
                &&& text@ == checksum_text(module@)
            }),
    {
        self.modules.upload(module)
    }

    /// Replaces the maintainers by the accounts in `principals`, and returns
    /// how many maintainers there are then.
    pub fn update_maintainers(&mut self, principals: Vec<AccountId>) -> (r: u128)
        requires
            old(self).wf(),
        ensures
            final(self).wf(),
            final(self)@ == (ServiceState {
                maintainers: ids_of(principals@).to_set(),
                ..old(self)@
            }),
            final(self)@.maintainers.finite(),
            r == final(self)@.maintainers.len(),
    {
        self.maintainers.update(principals)
    }

    /// Acknowledges a request to replace the module. The request is not
    /// carried out: the answer is always the same number.
    pub fn update_wasm(&self, _wasm_module: &str) -> (r: u128)
        ensures
            r == WASM_UPDATE_TICKET,
    {
        WASM_UPDATE_TICKET
    }

    /// Whether one more vote on proposal `proposal_id`, on the side chosen,
    /// can still be counted.
    pub fn vote_fits(&self, proposal_id: u128, vote: bool) -> (r: bool)
        ensures
            r == vote_fits(self@.proposals, proposal_id, vote),
    {
        self.proposals.vote_fits(proposal_id, vote)
    }

    /// Casts one vote on proposal `proposal_id`, for it when `vote` is true
    /// and against it otherwise. The first vote on an identifier creates the
    /// proposal. Nobody is kept from voting again: each call counts, and the
    /// call always succeeds.
    ///
    /// The vote must fit: [`Service::vote_fits`] tells. A caller ends a call
    /// that does not fit without making it.
    pub fn vote_for_proposal(&mut self, proposal_id: u128, vote: bool) -> (r: Result<
        (),
        String,
    >)
        requires
            old(self).wf(),
            vote_fits(old(self)@.proposals, proposal_id, vote),
        ensures
            final(self).wf(),
            r == Ok::<(), String>(()),
            final(self)@ == (ServiceState {
                proposals: voted(old(self)@.proposals, proposal_id, vote),
                ..old(self)@
            }),
    {
        self.proposals.vote(proposal_id, vote)
    }

    /// Proposal `proposal_id` with its tallies, once it has been voted on.
    pub fn get_proposal(&self, proposal_id: u128) -> (r: Option<Proposal>)
        ensures
            r == if self@.proposals.contains_key(proposal_id) {
                Some(self@.proposals[proposal_id])
            } else {
                None
            },
    {
        self.proposals.get(proposal_id)
    }

    /// Whether `account` is a maintainer.
    pub fn is_maintainer(&self, account: &AccountId) -> (r: bool)
        ensures
            r == self@.maintainers.contains(account@),
    {
        self.maintainers.contains(account)
    }
}

} // verus!
