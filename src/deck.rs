use vstd::prelude::*;
use vstd::multiset::Multiset;
use rand::seq::SliceRandom;
use crate::card::{Card, Rank, Suit, all_ranks, all_suits, rank_index, suit_index};
use crate::hand::Hand;

verus! {

broadcast use vstd::seq_lib::group_to_multiset_ensures;

/// The full deck in the order a new deck holds it: suit-major, rank-minor.
pub open spec fn full_deck() -> Seq<Card> {
    Seq::new(52, |k: int| Card { suit: all_suits()[k / 13], rank: all_ranks()[k % 13] })
}

/// Position of a card in `full_deck()`.
pub open spec fn deck_index(c: Card) -> int {
    13 * suit_index(c.suit) + rank_index(c.rank)
}

/// The `h`-th hand after `rounds` rounds of dealing from the top (the end)
/// of a 52-card `deck`: in round `j` it receives card `51 - (4 * j + h)`.
pub open spec fn dealt_prefix(deck: Seq<Card>, h: int, rounds: int) -> Seq<Card> {
    Seq::new(rounds as nat, |j: int| deck[51 - (4 * j + h)])
}

/// The `h`-th of the four hands dealt round-robin from a 52-card `deck`.
pub open spec fn dealt_hand(deck: Seq<Card>, h: int) -> Seq<Card> {
    dealt_prefix(deck, h, 13)
}

/// All cards of four hands taken together.
pub open spec fn cards_of_four(
    a: Seq<Card>,
    b: Seq<Card>,
    c: Seq<Card>,
    d: Seq<Card>,
) -> Multiset<Card> {
    a.to_multiset().add(b.to_multiset()).add(c.to_multiset()).add(d.to_multiset())
}

proof fn lemma_suit_and_rank_tables()
    ensures
        forall|k: int| 0 <= k < 4 ==> suit_index(#[trigger] all_suits()[k]) == k,
        forall|k: int| 0 <= k < 13 ==> rank_index(#[trigger] all_ranks()[k]) == k,
        forall|s: Suit| all_suits()[#[trigger] suit_index(s)] == s,
        forall|r: Rank| all_ranks()[#[trigger] rank_index(r)] == r,
{
    assert forall|k: int| 0 <= k < 13 implies rank_index(#[trigger] all_ranks()[k]) == k by {
        if k == 0 {} else if k == 1 {} else if k == 2 {} else if k == 3 {} else if k == 4 {}
        else if k == 5 {} else if k == 6 {} else if k == 7 {} else if k == 8 {}
        else if k == 9 {} else if k == 10 {} else if k == 11 {} else {}
    }
    assert forall|k: int| 0 <= k < 4 implies suit_index(#[trigger] all_suits()[k]) == k by {
        if k == 0 {} else if k == 1 {} else if k == 2 {} else {}
    }
}

/// A new deck holds every suit and rank combination exactly once.
pub proof fn lemma_full_deck_complete()
    ensures
        full_deck().len() == 52,
        full_deck().no_duplicates(),
        forall|c: Card| 0 <= #[trigger] deck_index(c) < 52 && full_deck()[deck_index(c)] == c,
        forall|c: Card| #[trigger] full_deck().to_multiset().count(c) == 1,
{
    lemma_suit_and_rank_tables();
    let d = full_deck();
    assert forall|i: int| 0 <= i < 52 implies #[trigger] deck_index(d[i]) == i by {}
    assert forall|c: Card| 0 <= #[trigger] deck_index(c) < 52 && d[deck_index(c)] == c by {}
    assert(d.no_duplicates());
    assert forall|c: Card| #[trigger] d.to_multiset().count(c) == 1 by {
        d.lemma_multiset_has_no_duplicates();
        assert(d.contains(c)) by {
            assert(d[deck_index(c)] == c);
        }
    }
}

/// Relies on rand's `SliceRandom::shuffle`, driven by `thread_rng`: it only
/// swaps elements in place, so the cards afterwards are a permutation of
/// the cards before.
#[verifier::external_body]
fn shuffle_cards(cards: &mut Vec<Card>)
    ensures
        final(cards)@.to_multiset() == old(cards)@.to_multiset(),
{
    cards.shuffle(&mut rand::thread_rng());
}

/// An owned pile of cards, dealt from its end.
#[derive(Debug)]
pub struct Deck {
    cards: Vec<Card>,
}

impl View for Deck {
    type V = Seq<Card>;

    closed spec fn view(&self) -> Seq<Card> {
        self.cards@
    }
}

impl Deck {
    /// A deck of all 52 cards, suit-major, rank-minor.
    pub fn new() -> (r: Deck)
        ensures
            r@ == full_deck(),
    {
        let suits = Suit::all();
        let ranks = Rank::all();
        let mut cards: Vec<Card> = Vec::new();
        let mut i: usize = 0;
        while i < suits.len()
            invariant
                suits@ == all_suits(),
                ranks@ == all_ranks(),
                0 <= i <= 4,
                cards@ == full_deck().take(13 * i),
            decreases suits.len() - i,
        {
            let mut j: usize = 0;
            while j < ranks.len()
                invariant
                    suits@ == all_suits(),
                    ranks@ == all_ranks(),
                    0 <= i < 4,
                    0 <= j <= 13,
                    cards@ == full_deck().take(13 * i + j),
                decreases ranks.len() - j,
            {
                cards.push(Card::new(suits[i], ranks[j]));
                proof {
                    let k = 13 * i + j;
                    assert(k / 13 == i && k % 13 == j);
                    assert(cards@ =~= full_deck().take(13 * i + j + 1));
                }
                j = j + 1;
            }
            i = i + 1;
        }
        proof {
            assert(cards@ =~= full_deck());
        }
        Deck { cards }
    }

    pub fn len(&self) -> (r: usize)
        ensures
            r == self@.len(),
    {
        self.cards.len()
    }

    pub fn cards(&self) -> (r: &Vec<Card>)
        ensures
            r@ == self@,
    {
        &self.cards
    }

    /// Puts the cards in a random order.
    pub fn shuffle(&mut self)
        ensures
            final(self)@.to_multiset() == old(self)@.to_multiset(),
            final(self)@.len() == old(self)@.len(),
    {
        let ghost before = self@;
        shuffle_cards(&mut self.cards);
        proof {
            assert(self@.to_multiset().len() == before.to_multiset().len());
        }
    }

    /// Removes and returns the card at the end of the deck.
    pub fn draw(&mut self) -> (r: Card)
        requires
            old(self)@.len() > 0,
        ensures
            r == old(self)@.last(),
            final(self)@ == old(self)@.drop_last(),
    {
        self.cards.pop().unwrap()
    }

    /// Deals the whole deck into four hands, one card to each hand in turn,
    /// thirteen rounds, taking cards from the end of the deck.
    pub fn deal_hands(&mut self) -> (r: Vec<Hand>)
        requires
            old(self)@.len() == 52,
        ensures
            r@.len() == 4,
            forall|h: int| 0 <= h < 4 ==> (#[trigger] r@[h])@ == dealt_hand(old(self)@, h),
            final(self)@.len() == 0,
            cards_of_four(r@[0]@, r@[1]@, r@[2]@, r@[3]@) == old(self)@.to_multiset(),
    {
        let ghost deck = self@;
        let mut h0 = Hand::new();
        let mut h1 = Hand::new();
        let mut h2 = Hand::new();
        let mut h3 = Hand::new();
        let mut round: usize = 0;
        while round < 13
            invariant
                0 <= round <= 13,
                deck.len() == 52,
                self@ == deck.take(52 - 4 * round),
                h0@ == dealt_prefix(deck, 0, round as int),
                h1@ == dealt_prefix(deck, 1, round as int),
                h2@ == dealt_prefix(deck, 2, round as int),
                h3@ == dealt_prefix(deck, 3, round as int),
                cards_of_four(h0@, h1@, h2@, h3@).add(self@.to_multiset()) == deck.to_multiset(),
            decreases 13 - round,
        {
            let ghost before = self@;
            let ghost m0 = cards_of_four(h0@, h1@, h2@, h3@);
            h0.add_card(self.draw());
            h1.add_card(self.draw());
            h2.add_card(self.draw());
            h3.add_card(self.draw());
            proof {
                let n = 52 - 4 * round;
                assert(before =~= self@.push(deck[n - 4]).push(deck[n - 3]).push(deck[n - 2]).push(
                    deck[n - 1],
                ));
                assert(h0@ =~= dealt_prefix(deck, 0, round + 1));
                assert(h1@ =~= dealt_prefix(deck, 1, round + 1));
                assert(h2@ =~= dealt_prefix(deck, 2, round + 1));
                assert(h3@ =~= dealt_prefix(deck, 3, round + 1));
                assert(self@ =~= deck.take(52 - 4 * (round + 1)));
                assert(cards_of_four(h0@, h1@, h2@, h3@).add(self@.to_multiset())
                    =~= m0.add(before.to_multiset()));
            }
            round = round + 1;
        }
        vec![h0, h1, h2, h3]
    }
}

/// Dealing a deck that holds the 52 cards in any order gives four hands of
/// thirteen cards that together hold every card exactly once.
pub proof fn lemma_deal_of_full_deck(deck: Seq<Card>)
    requires
        deck.to_multiset() == full_deck().to_multiset(),
    ensures
        forall|h: int| 0 <= h < 4 ==> (#[trigger] dealt_hand(deck, h)).len() == 13,
        cards_of_four(dealt_hand(deck, 0), dealt_hand(deck, 1), dealt_hand(deck, 2), dealt_hand(deck, 3))
            == full_deck().to_multiset(),
        forall|c: Card| #[trigger] cards_of_four(dealt_hand(deck, 0), dealt_hand(deck, 1), dealt_hand(deck, 2), dealt_hand(deck, 3)).count(c) == 1,
{
    lemma_full_deck_complete();
    deck.to_multiset_ensures();
    full_deck().to_multiset_ensures();
    assert(deck.len() == 52);
    lemma_dealt_prefix_cards(deck, 13);
    assert(deck.take(0).to_multiset() =~= Multiset::empty());
    assert(cards_of_four(dealt_hand(deck, 0), dealt_hand(deck, 1), dealt_hand(deck, 2), dealt_hand(deck, 3))
        =~= deck.to_multiset());
}

proof fn lemma_dealt_prefix_cards(deck: Seq<Card>, rounds: int)
    requires
        deck.len() == 52,
        0 <= rounds <= 13,
    ensures
        cards_of_four(
            dealt_prefix(deck, 0, rounds),
            dealt_prefix(deck, 1, rounds),
            dealt_prefix(deck, 2, rounds),
            dealt_prefix(deck, 3, rounds),
        ).add(deck.take(52 - 4 * rounds).to_multiset()) == deck.to_multiset(),
    decreases rounds,
{
    if rounds == 0 {
        assert(dealt_prefix(deck, 0, 0) =~= Seq::empty());
        assert(dealt_prefix(deck, 1, 0) =~= Seq::empty());
        assert(dealt_prefix(deck, 2, 0) =~= Seq::empty());
        assert(dealt_prefix(deck, 3, 0) =~= Seq::empty());
        assert(deck.take(52) =~= deck);
        assert(cards_of_four(
            dealt_prefix(deck, 0, 0),
            dealt_prefix(deck, 1, 0),
            dealt_prefix(deck, 2, 0),
            dealt_prefix(deck, 3, 0),
        ).add(deck.take(52).to_multiset()) =~= deck.to_multiset());
    } else {
        let r = rounds - 1;
        lemma_dealt_prefix_cards(deck, r);
        let n = 52 - 4 * r;
        let rest = deck.take(n - 4);
        assert(deck.take(n) =~= rest.push(deck[n - 4]).push(deck[n - 3]).push(deck[n - 2]).push(
            deck[n - 1],
        ));
        assert(dealt_prefix(deck, 0, rounds) =~= dealt_prefix(deck, 0, r).push(deck[n - 1]));
        assert(dealt_prefix(deck, 1, rounds) =~= dealt_prefix(deck, 1, r).push(deck[n - 2]));
        assert(dealt_prefix(deck, 2, rounds) =~= dealt_prefix(deck, 2, r).push(deck[n - 3]));
        assert(dealt_prefix(deck, 3, rounds) =~= dealt_prefix(deck, 3, r).push(deck[n - 4]));
        assert(cards_of_four(
            dealt_prefix(deck, 0, rounds),
            dealt_prefix(deck, 1, rounds),
            dealt_prefix(deck, 2, rounds),
            dealt_prefix(deck, 3, rounds),
        ).add(rest.to_multiset()) =~= cards_of_four(
            dealt_prefix(deck, 0, r),
            dealt_prefix(deck, 1, r),
            dealt_prefix(deck, 2, r),
            dealt_prefix(deck, 3, r),
        ).add(deck.take(n).to_multiset()));
    }
}

} // verus!
