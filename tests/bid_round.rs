use card_table::deck::Deck;
use card_table::game::bid_round::{Bid, BidRound};

#[test]
fn new_bid_round() {
    let bid_round = BidRound::new(0);

    assert_eq!(bid_round.hands().len(), 4);
    assert_eq!(bid_round.dealer(), 0);
    assert_eq!(bid_round.bids().len(), 0);
}

#[test]
fn register_a_play_bid_triggers_play() {
    let mut bid_round = BidRound::new(0);

    assert_eq!(bid_round.register_bid(Bid::Play), Some(Bid::Play));
}

#[test]
fn register_four_pass_bids_triggers_pass() {
    let mut bid_round = BidRound::new(0);

    assert_eq!(bid_round.register_bid(Bid::Pass), None);
    assert_eq!(bid_round.register_bid(Bid::Pass), None);
    assert_eq!(bid_round.register_bid(Bid::Pass), None);
    assert_eq!(bid_round.register_bid(Bid::Pass), Some(Bid::Pass));
}

#[test]
fn register_three_pass_bids_does_not_trigger_pass() {
    let mut bid_round = BidRound::new(0);

    assert_eq!(bid_round.register_bid(Bid::Pass), None);
    assert_eq!(bid_round.register_bid(Bid::Pass), None);
    assert_eq!(bid_round.register_bid(Bid::Pass), None);
}

#[test]
fn play_after_passes_triggers_play() {
    let mut bid_round = BidRound::new(2);

    assert_eq!(bid_round.register_bid(Bid::Pass), None);
    assert_eq!(bid_round.register_bid(Bid::Pass), None);
    assert_eq!(bid_round.register_bid(Bid::Play), Some(Bid::Play));
    assert_eq!(bid_round.bids(), &[Bid::Pass, Bid::Pass, Bid::Play]);
    assert_eq!(bid_round.dealer(), 2);
}

#[test]
fn new_round_deals_thirteen_cards_each() {
    let bid_round = BidRound::new(1);
    for hand in bid_round.hands().iter() {
        assert_eq!(hand.len(), 13);
    }
}

#[test]
fn round_from_an_ordered_deck() {
    let deck = Deck::new();
    let expected = {
        let mut copy = Deck::new();
        copy.deal_hands()
    };
    let bid_round = BidRound::from_deck(3, deck);

    assert_eq!(*bid_round.hands(), expected);
    assert_eq!(bid_round.dealer(), 3);
    assert_eq!(bid_round.bids().len(), 0);
}
