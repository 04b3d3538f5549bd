use card_table::card::{Card, Rank, Suit};
use card_table::hand::Hand;

#[test]
fn new_hand_has_no_cards() {
    let hand = Hand::new();

    assert_eq!(hand.cards().len(), 0);
}

#[test]
fn add_card_to_hand() {
    let mut hand = Hand::new();
    hand.add_card(Card::new(Suit::Spades, Rank::Ace));

    assert_eq!(hand.cards().len(), 1);
}

#[test]
fn hand_cards() {
    let mut hand = Hand::new();
    hand.add_card(Card::new(Suit::Spades, Rank::Ace));

    assert_eq!(hand.cards()[0], Card::new(Suit::Spades, Rank::Ace));
}

#[test]
fn hand_len() {
    let mut hand = Hand::new();
    hand.add_card(Card::new(Suit::Spades, Rank::Ace));

    assert_eq!(hand.len(), 1);
}

#[test]
fn hand_keeps_order_of_arrival() {
    let mut hand = Hand::new();
    hand.add_card(Card::new(Suit::Hearts, Rank::Five));
    hand.add_card(Card::new(Suit::Clubs, Rank::King));

    assert_eq!(
        *hand.cards(),
        vec![
            Card::new(Suit::Hearts, Rank::Five),
            Card::new(Suit::Clubs, Rank::King)
        ]
    );
}
