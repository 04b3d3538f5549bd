use vstd::prelude::*;
use crate::deck::{Deck, cards_of_four, dealt_hand, full_deck, lemma_deal_of_full_deck};
use crate::hand::Hand;

verus! {

/// A seat's word in the auction.
#[derive(Debug, PartialEq, Eq, Structural, Clone, Copy)]
pub enum Bid {
    Pass,
    Play,
}

/// The outcome after the bids so far: the latest bid being `Play` closes the
/// auction with `Play`; four bids without a `Play` close it with `Pass`;
/// otherwise the auction is still open.
pub open spec fn outcome(bids: Seq<Bid>) -> Option<Bid> {
    if bids.len() > 0 && bids.last() == Bid::Play {
        Some(Bid::Play)
    } else if bids.len() == 4 {
        Some(Bid::Pass)
    } else {
        None
    }
}

/// The auction over four freshly dealt hands.
#[derive(Debug, PartialEq, Clone)]
pub struct BidRound {
    hands: Vec<Hand>,
    dealer: usize,
    bids: Vec<Bid>,
}

impl BidRound {
    pub closed spec fn spec_hands(&self) -> Seq<Hand> {
        self.hands@
    }

    pub closed spec fn spec_dealer(&self) -> usize {
        self.dealer
    }

    pub closed spec fn spec_bids(&self) -> Seq<Bid> {
        self.bids@
    }

    /// A round whose hands are dealt from a new, shuffled deck.
    pub fn new(dealer: usize) -> (r: BidRound)
        ensures
            r.spec_dealer() == dealer,
            r.spec_bids() == Seq::<Bid>::empty(),
            r.spec_hands().len() == 4,
            forall|h: int| 0 <= h < 4 ==> (#[trigger] r.spec_hands()[h])@.len() == 13,
            cards_of_four(
                r.spec_hands()[0]@,
                r.spec_hands()[1]@,
                r.spec_hands()[2]@,
                r.spec_hands()[3]@,
            ) == full_deck().to_multiset(),
    {
        let mut deck = Deck::new();
        deck.shuffle();
        proof {
            lemma_deal_of_full_deck(deck@);
        }
        BidRound::from_deck(dealer, deck)
    }

    /// A round whose hands are dealt round-robin from `deck`.
    pub fn from_deck(dealer: usize, deck: Deck) -> (r: BidRound)
        requires
            deck@.len() == 52,
        ensures
            r.spec_dealer() == dealer,
            r.spec_bids() == Seq::<Bid>::empty(),
            r.spec_hands().len() == 4,
            forall|h: int| 0 <= h < 4 ==> (#[trigger] r.spec_hands()[h])@ == dealt_hand(deck@, h),
    {
        let mut deck = deck;
        let hands = deck.deal_hands();
        BidRound { hands, dealer, bids: Vec::with_capacity(4) }
    }

    pub fn hands(&self) -> (r: &Vec<Hand>)
        ensures
            r@ == self.spec_hands(),
    {
        &self.hands
    }

    pub fn dealer(&self) -> (r: usize)
        ensures
            r == self.spec_dealer(),
    {
        self.dealer
    }

    pub fn bids(&self) -> (r: &[Bid])
        ensures
            r@ == self.spec_bids(),
    {
        self.bids.as_slice()
    }

    /// Records `bid` and reports the auction's outcome, if it is decided.
    pub fn register_bid(&mut self, bid: Bid) -> (r: Option<Bid>)
        requires
            old(self).spec_bids().len() < usize::MAX,
        ensures
            final(self).spec_bids() == old(self).spec_bids().push(bid),
            final(self).spec_hands() == old(self).spec_hands(),
            final(self).spec_dealer() == old(self).spec_dealer(),
            r == outcome(final(self).spec_bids()),
    {
        self.bids.push(bid);
        if bid == Bid::Play {
            return Some(Bid::Play);
        }
        if self.bids.len() == 4 {
            return Some(Bid::Pass);
        }
        None
    }
}

} // verus!
