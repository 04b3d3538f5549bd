use card_table::card::{Card, Rank, Suit};
use std::cmp::Ordering;

#[test]
fn new_ace_of_spades() {
    let card = Card {
        suit: Suit::Spades,
        rank: Rank::Ace,
    };
    assert_eq!(*card.suit(), Suit::Spades);
    assert_eq!(*card.rank(), Rank::Ace);
}

#[test]
fn suit() {
    let card = Card::new(Suit::Hearts, Rank::Two);
    assert_eq!(*card.suit(), Suit::Hearts);
}

#[test]
fn rank() {
    let card = Card::new(Suit::Hearts, Rank::Two);
    assert_eq!(*card.rank(), Rank::Two);
}

#[test]
fn ace_higher_than_king() {
    let ace = Card::new(Suit::Spades, Rank::Ace);
    let king = Card::new(Suit::Spades, Rank::King);

    assert!(ace.rank() > king.rank());
}

#[test]
fn deuce_lower_than_three() {
    let deuce = Card::new(Suit::Spades, Rank::Two);
    let three = Card::new(Suit::Spades, Rank::Three);

    assert!(deuce.rank() < three.rank());
}

#[test]
fn ace_of_spades_equal_to_ace_of_spades() {
    let ace1 = Card::new(Suit::Spades, Rank::Ace);
    let ace2 = Card::new(Suit::Spades, Rank::Ace);

    assert_eq!(ace1, ace2);
}

#[test]
fn same_suits_equals() {
    let card1 = Card::new(Suit::Hearts, Rank::Two);
    let card2 = Card::new(Suit::Hearts, Rank::Three);

    assert_eq!(card1.suit(), card2.suit());
}

#[test]
fn three_of_clubs_less_than_three_of_diamonds() {
    let three_of_clubs = Card::new(Suit::Clubs, Rank::Three);
    let three_of_diamonds = Card::new(Suit::Diamonds, Rank::Three);

    assert_eq!(
        three_of_clubs.compare_bridge_value(&three_of_diamonds),
        Ordering::Less
    );
}

#[test]
fn compare_bridge_value() {
    let aces = vec![
        Card::new(Suit::Diamonds, Rank::Ace),
        Card::new(Suit::Hearts, Rank::Ace),
        Card::new(Suit::Spades, Rank::Ace),
        Card::new(Suit::Clubs, Rank::Ace),
    ];
    let mut sorted_aces = aces.clone();
    sorted_aces.sort_by(|a, b| a.compare_bridge_value(b));

    assert_eq!(
        sorted_aces,
        vec![
            Card::new(Suit::Clubs, Rank::Ace),
            Card::new(Suit::Diamonds, Rank::Ace),
            Card::new(Suit::Hearts, Rank::Ace),
            Card::new(Suit::Spades, Rank::Ace),
        ],
    );
}

#[test]
fn deuce_of_spades_below_three_of_clubs() {
    let deuce = Card::new(Suit::Spades, Rank::Two);
    let three = Card::new(Suit::Clubs, Rank::Three);

    assert_eq!(deuce.compare_bridge_value(&three), Ordering::Less);
    assert_eq!(three.compare_bridge_value(&deuce), Ordering::Greater);
}

#[test]
fn card_compares_equal_to_itself() {
    let card = Card::new(Suit::Hearts, Rank::Queen);

    assert_eq!(card.compare_bridge_value(&card), Ordering::Equal);
}

#[test]
fn rank_outweighs_suit() {
    let king_of_spades = Card::new(Suit::Spades, Rank::King);
    let ace_of_clubs = Card::new(Suit::Clubs, Rank::Ace);

    assert_eq!(king_of_spades.compare_bridge_value(&ace_of_clubs), Ordering::Less);
}

#[test]
fn all_suits_and_ranks_in_order() {
    assert_eq!(
        Suit::all(),
        vec![Suit::Clubs, Suit::Diamonds, Suit::Hearts, Suit::Spades]
    );
    let ranks = Rank::all();
    assert_eq!(ranks.len(), 13);
    assert_eq!(ranks[0], Rank::Two);
    assert_eq!(ranks[8], Rank::Ten);
    assert_eq!(ranks[12], Rank::Ace);
}
