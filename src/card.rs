use vstd::prelude::*;

verus! {

/// The four suits, in ascending order.
#[derive(Debug, Clone, Copy, PartialEq, Eq, Structural, PartialOrd, Ord, Hash)]
pub enum Suit {
    Clubs,
    Diamonds,
    Hearts,
    Spades,
}

/// The thirteen ranks, in ascending order (Ace highest).
#[derive(Debug, Clone, Copy, PartialEq, Eq, Structural, PartialOrd, Ord, Hash)]
pub enum Rank {
    Two,
    Three,
    Four,
    Five,
    Six,
    Seven,
    Eight,
    Nine,
    Ten,
    Jack,
    Queen,
    King,
    Ace,
}

/// Position of a suit in the ascending order, from 0 (Clubs) to 3 (Spades).
pub open spec fn suit_index(s: Suit) -> int {
    match s {
        Suit::Clubs => 0,
        Suit::Diamonds => 1,
        Suit::Hearts => 2,
        Suit::Spades => 3,
    }
}

/// Position of a rank in the ascending order, from 0 (Two) to 12 (Ace).
pub open spec fn rank_index(r: Rank) -> int {
    match r {
        Rank::Two => 0,
        Rank::Three => 1,
        Rank::Four => 2,
        Rank::Five => 3,
        Rank::Six => 4,
        Rank::Seven => 5,
        Rank::Eight => 6,
        Rank::Nine => 7,
        Rank::Ten => 8,
        Rank::Jack => 9,
        Rank::Queen => 10,
        Rank::King => 11,
        Rank::Ace => 12,
    }
}

/// The suits in ascending order.
pub open spec fn all_suits() -> Seq<Suit> {
    seq![Suit::Clubs, Suit::Diamonds, Suit::Hearts, Suit::Spades]
}

/// The ranks in ascending order.
pub open spec fn all_ranks() -> Seq<Rank> {
    seq![
        Rank::Two,
        Rank::Three,
        Rank::Four,
        Rank::Five,
        Rank::Six,
        Rank::Seven,
        Rank::Eight,
        Rank::Nine,
        Rank::Ten,
        Rank::Jack,
        Rank::Queen,
        Rank::King,
        Rank::Ace,
    ]
}

impl Suit {
    /// Every suit, lowest first.
    pub fn all() -> (r: Vec<Suit>)
        ensures
            r@ == all_suits(),
    {
        vec![Suit::Clubs, Suit::Diamonds, Suit::Hearts, Suit::Spades]
    }

    fn index(&self) -> (r: u8)
        ensures
            r as int == suit_index(*self),
    {
        match self {
            Suit::Clubs => 0,
            Suit::Diamonds => 1,
            Suit::Hearts => 2,
            Suit::Spades => 3,
        }
    }
}

impl Rank {
    /// Every rank, lowest first.
    pub fn all() -> (r: Vec<Rank>)
        ensures
            r@ == all_ranks(),
    {
        vec![
            Rank::Two,
            Rank::Three,
            Rank::Four,
            Rank::Five,
            Rank::Six,
            Rank::Seven,
            Rank::Eight,
            Rank::Nine,
            Rank::Ten,
            Rank::Jack,
            Rank::Queen,
            Rank::King,
            Rank::Ace,
        ]
    }

    fn index(&self) -> (r: u8)
        ensures
            r as int == rank_index(*self),
    {
        match self {
            Rank::Two => 0,
            Rank::Three => 1,
            Rank::Four => 2,
            Rank::Five => 3,
            Rank::Six => 4,
            Rank::Seven => 5,
            Rank::Eight => 6,
            Rank::Nine => 7,
            Rank::Ten => 8,
            Rank::Jack => 9,
            Rank::Queen => 10,
            Rank::King => 11,
            Rank::Ace => 12,
        }
    }
}

/// A playing card: a suit and a rank.
#[derive(Debug, Clone, Copy, PartialEq, Eq, Structural, Hash)]
pub struct Card {
    pub suit: Suit,
    pub rank: Rank,
}

/// The bridge value of a card: rank first, suit as tie-break.
/// Distinct cards have distinct values, from 0 (Two of Clubs) to 51 (Ace of Spades).
pub open spec fn bridge_value(c: Card) -> int {
    4 * rank_index(c.rank) + suit_index(c.suit)
}

/// The ordering of two integers.
pub open spec fn int_ordering(a: int, b: int) -> std::cmp::Ordering {
    if a < b {
        std::cmp::Ordering::Less
    } else if a == b {
        std::cmp::Ordering::Equal
    } else {
        std::cmp::Ordering::Greater
    }
}

/// The bridge ordering of two cards.
pub open spec fn bridge_ordering(a: Card, b: Card) -> std::cmp::Ordering {
    if rank_index(a.rank) != rank_index(b.rank) {
        int_ordering(rank_index(a.rank), rank_index(b.rank))
    } else {
        int_ordering(suit_index(a.suit), suit_index(b.suit))
    }
}

/// The bridge ordering is the ordering of bridge values, and two cards with
/// the same bridge value are the same card.
pub proof fn lemma_bridge_ordering_is_value_ordering(a: Card, b: Card)
    ensures
        bridge_ordering(a, b) == int_ordering(bridge_value(a), bridge_value(b)),
        bridge_value(a) == bridge_value(b) <==> a == b,
        0 <= bridge_value(a) < 52,
{
}

/// Rank decides the bridge ordering whatever the suits: a lower rank is lower.
pub proof fn lemma_rank_outweighs_suit(a: Card, b: Card)
    requires
        rank_index(a.rank) < rank_index(b.rank),
    ensures
        bridge_ordering(a, b) == std::cmp::Ordering::Less,
        bridge_ordering(b, a) == std::cmp::Ordering::Greater,
{
}

impl Card {
    pub fn new(suit: Suit, rank: Rank) -> (r: Card)
        ensures
            r == (Card { suit, rank }),
    {
        Card { suit, rank }
    }

    pub fn suit(&self) -> (r: &Suit)
        ensures
            *r == self.suit,
    {
        &self.suit
    }

    pub fn rank(&self) -> (r: &Rank)
        ensures
            *r == self.rank,
    {
        &self.rank
    }

    /// Compares by rank, then by suit when the ranks are equal.
    pub fn compare_bridge_value(&self, other: &Card) -> (r: std::cmp::Ordering)
        ensures
            r == bridge_ordering(*self, *other),
            r == int_ordering(bridge_value(*self), bridge_value(*other)),
    {
        proof {
            lemma_bridge_ordering_is_value_ordering(*self, *other);
        }
        let a = self.rank.index();
        let b = other.rank.index();
        if a < b {
            std::cmp::Ordering::Less
        } else if a > b {
            std::cmp::Ordering::Greater
        } else {
            let x = self.suit.index();
            let y = other.suit.index();
            if x < y {
                std::cmp::Ordering::Less
            } else if x > y {
                std::cmp::Ordering::Greater
            } else {
                std::cmp::Ordering::Equal
            }
        }
    }
}

} // verus!
