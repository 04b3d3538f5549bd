use vstd::prelude::*;
use crate::card::Card;

verus! {

/// The cards held by one seat, in the order they were received.
#[derive(Debug, PartialEq, Clone)]
pub struct Hand {
    cards: Vec<Card>,
}

impl View for Hand {
    type V = Seq<Card>;

    closed spec fn view(&self) -> Seq<Card> {
        self.cards@
    }
}

impl Hand {
    pub fn new() -> (r: Hand)
        ensures
            r@ == Seq::<Card>::empty(),
    {
        Hand { cards: Vec::with_capacity(13) }
    }

    pub fn add_card(&mut self, card: Card)
        ensures
            final(self)@ == old(self)@.push(card),
    {
        self.cards.push(card);
    }

    pub fn len(&self) -> (r: usize)
        ensures
            r == self@.len(),
    {
        self.cards.len()
    }

    pub fn cards(&self) -> (r: &Vec<Card>)
        ensures
            r@ == self@,
    {
        &self.cards
    }
}

} // verus!
