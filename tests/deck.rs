use card_table::card::{Card, Rank, Suit};
use card_table::deck::Deck;
use std::collections::HashSet;

#[test]
fn new_deck_has_52_cards() {
    let deck = Deck::new();
    assert_eq!(deck.len(), 52);
}

#[test]
fn shuffled_deck_differs_from_new_deck() {
    let mut deck = Deck::new();
    let before = deck.cards().clone();

    deck.shuffle();

    assert_ne!(*deck.cards(), before);
}

#[test]
fn shuffled_decks_are_different() {
    let mut deck1 = Deck::new();
    let mut deck2 = Deck::new();

    deck1.shuffle();
    deck2.shuffle();

    assert_ne!(deck1.cards(), deck2.cards());
}

#[test]
fn deal_hands() {
    let mut deck = Deck::new();
    deck.shuffle();

    let hands = deck.deal_hands();
    assert_eq!(deck.len(), 0);
    assert_eq!(hands.len(), 4);
}

#[test]
fn new_deck_holds_every_card_once() {
    let deck = Deck::new();
    let distinct: HashSet<Card> = deck.cards().iter().cloned().collect();
    assert_eq!(distinct.len(), 52);
    assert_eq!(deck.cards()[0], Card::new(Suit::Clubs, Rank::Two));
    assert_eq!(deck.cards()[13], Card::new(Suit::Diamonds, Rank::Two));
    assert_eq!(deck.cards()[51], Card::new(Suit::Spades, Rank::Ace));
}

#[test]
fn shuffle_keeps_the_cards() {
    let mut deck = Deck::new();
    deck.shuffle();
    let distinct: HashSet<Card> = deck.cards().iter().cloned().collect();
    assert_eq!(deck.len(), 52);
    assert_eq!(distinct.len(), 52);
}

#[test]
fn deal_is_round_robin_from_the_end() {
    let mut deck = Deck::new();
    let hands = deck.deal_hands();

    assert_eq!(hands[0].cards()[0], Card::new(Suit::Spades, Rank::Ace));
    assert_eq!(hands[1].cards()[0], Card::new(Suit::Spades, Rank::King));
    assert_eq!(hands[2].cards()[0], Card::new(Suit::Spades, Rank::Queen));
    assert_eq!(hands[3].cards()[0], Card::new(Suit::Spades, Rank::Jack));
    assert_eq!(hands[0].cards()[1], Card::new(Suit::Spades, Rank::Ten));
    assert_eq!(hands[3].cards()[12], Card::new(Suit::Clubs, Rank::Two));
}

#[test]
fn dealt_hands_cover_the_deck() {
    let mut deck = Deck::new();
    deck.shuffle();
    let hands = deck.deal_hands();

    let mut seen: HashSet<Card> = HashSet::new();
    for hand in hands.iter() {
        assert_eq!(hand.len(), 13);
        for card in hand.cards().iter() {
            assert!(seen.insert(*card));
        }
    }
    assert_eq!(seen.len(), 52);
    assert_eq!(deck.len(), 0);
}

#[test]
fn draw_takes_the_last_card() {
    let mut deck = Deck::new();
    let card = deck.draw();
    assert_eq!(card, Card::new(Suit::Spades, Rank::Ace));
    assert_eq!(deck.len(), 51);
}
