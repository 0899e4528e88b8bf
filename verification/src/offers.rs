//! The offer registry: the best offer accepted so far.
//!
//! An offer names an amount and the cycles attached to it. Offers are ranked
//! by amount per cycle, compared exactly by cross-multiplication. An offer is
//! accepted exactly when it attaches cycles and ranks strictly above the
//! best one so far, so the best offer only ever improves.

use vstd::prelude::*;

verus! {

/// The amount of the offer that stands before any offer is submitted.
pub const OPENING_AMOUNT: u64 = 1000;

/// The cycles of the offer that stands before any offer is submitted.
pub const OPENING_NUM_CYCLES: u64 = 5000;

/// The total amount that stands before any offer is submitted.
pub const OPENING_TOTAL_AMOUNT: u64 = 10000;

/// An offer: an amount, and the cycles attached to it.
#[derive(Clone, Copy, Debug, PartialEq, Eq, Structural)]
pub struct Offer {
    pub amount: u64,
    pub num_attached_cycles: u64,
}

/// The best offer, and the total amount: the opening total plus the amounts
/// of all accepted offers.
#[derive(Clone, Copy, Debug, PartialEq, Eq, Structural)]
pub struct BestOffer {
    pub amount: u64,
    pub num_cycles: u64,
    pub total_amount: u64,
}

/// The answer to a submitted offer.
#[derive(Debug, PartialEq, Eq)]
pub enum SubmitOfferResponse {
    /// The offer is the new best offer.
    Accepted,
    /// The offer was turned down, for the reason given; nothing changed.
    Rejected(String),
}

/// How the registry judges an offer.
#[derive(Clone, Copy, Debug, PartialEq, Eq, Structural)]
pub enum OfferVerdict {
    /// The offer becomes the best offer.
    Accept,
    /// The offer attaches no cycles, so it has no rank.
    NoCycles,
    /// The offer does not rank strictly above the best offer.
    NotPreferred,
}

/// The best offer before any offer is submitted.
pub open spec fn opening_offer() -> BestOffer {
    BestOffer {
        amount: OPENING_AMOUNT,
        num_cycles: OPENING_NUM_CYCLES,
        total_amount: OPENING_TOTAL_AMOUNT,
    }
}

/// Whether `offer` ranks strictly above `best`: whether it gives more per
/// cycle.
pub open spec fn outbids(offer: Offer, best: BestOffer) -> bool {
    offer.amount * best.num_cycles > best.amount * offer.num_attached_cycles
}

/// The verdict on `offer` while `best` is the best offer.
pub open spec fn offer_verdict(best: BestOffer, offer: Offer) -> OfferVerdict {
    if offer.num_attached_cycles == 0 {
        OfferVerdict::NoCycles
    } else if !outbids(offer, best) {
        OfferVerdict::NotPreferred
    } else {
        OfferVerdict::Accept
    }
}

/// Whether the total amount can still be represented once `offer` is dealt
/// with. An offer that is turned down adds nothing, and so fits.
pub open spec fn offer_fits(best: BestOffer, offer: Offer) -> bool {
    offer_verdict(best, offer) == OfferVerdict::Accept ==> best.total_amount + offer.amount
        <= u64::MAX
}

/// The record of the best offer once `offer` has been accepted.
pub open spec fn after_accepting(best: BestOffer, offer: Offer) -> BestOffer {
    BestOffer {
        amount: offer.amount,
        num_cycles: offer.num_attached_cycles,
        total_amount: (best.total_amount + offer.amount) as u64,
    }
}

/// The sentence that goes with a verdict.
pub open spec fn verdict_text(verdict: OfferVerdict) -> Seq<char> {
    match verdict {
        OfferVerdict::Accept => "Offer accepted"@,
        OfferVerdict::NoCycles => "Offer attaches no cycles"@,
        OfferVerdict::NotPreferred => "Offer does not improve on the best offer"@,
    }
}

impl OfferVerdict {
    /// The verdict as a sentence.
    pub fn reason(&self) -> (r: String)
        ensures
            r@ == verdict_text(*self),
    {
        match self {
            OfferVerdict::Accept => "Offer accepted".to_owned(),
            OfferVerdict::NoCycles => "Offer attaches no cycles".to_owned(),
            OfferVerdict::NotPreferred => "Offer does not improve on the best offer".to_owned(),
        }
    }
}

/// The offer registry.
pub struct OfferRegistry {
    best: BestOffer,
}

impl View for OfferRegistry {
    type V = BestOffer;

    closed spec fn view(&self) -> BestOffer {
        self.best
    }
}

impl OfferRegistry {
    /// A registry to which no offer has been submitted: the opening offer
    /// stands.
    pub fn new() -> (r: OfferRegistry)
        ensures
            r@ == opening_offer(),
    {
        OfferRegistry {
            best: BestOffer {
                amount: OPENING_AMOUNT,
                num_cycles: OPENING_NUM_CYCLES,
                total_amount: OPENING_TOTAL_AMOUNT,
            },
        }
    }

    /// The best offer.
    pub fn get_best(&self) -> (r: BestOffer)
        ensures
            r == self@,
    {
        self.best
    }

    /// Judges `offer` against the best offer, without changing anything.
    pub fn judge(&self, offer: Offer) -> (r: OfferVerdict)
        ensures
            r == offer_verdict(self@, offer),
    {
        if offer.num_attached_cycles == 0 {
            return OfferVerdict::NoCycles;
        }
        assert(offer.amount * self.best.num_cycles <= u128::MAX && self.best.amount
            * offer.num_attached_cycles <= u128::MAX) by (nonlinear_arith)
            requires
                offer.amount <= u64::MAX,
                self.best.num_cycles <= u64::MAX,
                self.best.amount <= u64::MAX,
                offer.num_attached_cycles <= u64::MAX,
        ;
        let offered: u128 = (offer.amount as u128) * (self.best.num_cycles as u128);
        let standing: u128 = (self.best.amount as u128) * (offer.num_attached_cycles as u128);
        if offered > standing {
            OfferVerdict::Accept
        } else {
            OfferVerdict::NotPreferred
        }
    }

    /// Whether the total amount can still be represented once `offer` is
    /// dealt with.
    pub fn fits(&self, offer: Offer) -> (r: bool)
        ensures
            r == offer_fits(self@, offer),
    {
        match self.judge(offer) {
            OfferVerdict::Accept => self.best.total_amount.checked_add(offer.amount).is_some(),
            _ => true,
        }
    }

    /// Submits `offer`. It is accepted, and becomes the best offer, exactly
    /// when it attaches cycles and ranks strictly above the best offer. Any
    /// other offer is turned down with the sentence that says why, and the
    /// registry stays as it was.
    ///
    /// The offer must fit: [`OfferRegistry::fits`] tells.
    pub fn submit(&mut self, offer: Offer) -> (r: SubmitOfferResponse)
        requires
            offer_fits(old(self)@, offer),
        ensures
            r == SubmitOfferResponse::Accepted <==> offer.num_attached_cycles > 0 && outbids(
                offer,
                old(self)@,
            ),
            match offer_verdict(old(self)@, offer) {
                OfferVerdict::Accept => r == SubmitOfferResponse::Accepted && final(self)@
                    == after_accepting(old(self)@, offer),
                verdict => r matches SubmitOfferResponse::Rejected(reason) && reason@
                    == verdict_text(verdict) && final(self)@ == old(self)@,
            },
    {
        let verdict = self.judge(offer);
        match verdict {
            OfferVerdict::Accept => {
                self.best = BestOffer {
                    amount: offer.amount,
                    num_cycles: offer.num_attached_cycles,
                    total_amount: self.best.total_amount + offer.amount,
                };
                SubmitOfferResponse::Accepted
            },
            _ => SubmitOfferResponse::Rejected(verdict.reason()),
        }
    }
}

} // verus!
