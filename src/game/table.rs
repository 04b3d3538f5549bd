use vstd::prelude::*;
use vstd::multiset::Multiset;
use crate::card::{Card, bridge_value};
use crate::deck::Deck;
use crate::game::{Player, Team, other_team};
use crate::game::lobby::{Lobby, count_team, is_balanced, team_members};

verus! {

broadcast use vstd::seq_lib::group_seq_properties, vstd::seq_lib::group_filter_ensures,
    vstd::seq_lib::group_to_multiset_ensures;

/// The players of a draw, in the draw's order.
pub open spec fn players_of(draws: Seq<(Player, Card)>) -> Seq<Player> {
    draws.map_values(|d: (Player, Card)| d.0)
}

/// The draw is in ascending bridge value of the drawn cards.
pub open spec fn sorted_by_bridge(draws: Seq<(Player, Card)>) -> bool {
    forall|i: int, j: int|
        0 <= i < j < draws.len() ==> bridge_value(#[trigger] draws[i].1) <= bridge_value(
            #[trigger] draws[j].1,
        )
}

/// Each player, in lobby order, paired with the card taken from the end of `deck`.
pub open spec fn drawn_pairs(players: Seq<Player>, deck: Seq<Card>) -> Seq<(Player, Card)> {
    Seq::new(players.len(), |i: int| (players[i], deck[deck.len() - 1 - i]))
}

/// The team of the player who drew the lowest card.
pub open spec fn anchor_team(draws: Seq<(Player, Card)>) -> Team {
    draws[0].0.team
}

/// The players of the anchor team, in draw order.
pub open spec fn anchor_side(draws: Seq<(Player, Card)>) -> Seq<Player> {
    team_members(players_of(draws), anchor_team(draws))
}

/// The players of the other team, in draw order.
pub open spec fn other_side(draws: Seq<(Player, Card)>) -> Seq<Player> {
    team_members(players_of(draws), other_team(anchor_team(draws)))
}

/// North and south are partners, east and west are partners, and the two
/// pairs are on different teams.
pub open spec fn partners_opposite(seats: Seq<Player>) -> bool {
    &&& seats[0].team == seats[2].team
    &&& seats[1].team == seats[3].team
    &&& seats[0].team != seats[1].team
}

/// The seats north, east, south, west that a sorted draw gives.
pub open spec fn seating(draws: Seq<(Player, Card)>) -> Seq<Player> {
    seq![anchor_side(draws)[0], other_side(draws)[0], anchor_side(draws)[1], other_side(draws)[1]]
}

proof fn lemma_insert_to_multiset<A>(s: Seq<A>, pos: int, x: A)
    requires
        0 <= pos <= s.len(),
    ensures
        s.insert(pos, x).to_multiset() == s.to_multiset().insert(x),
{
    let t = s.insert(pos, x);
    assert(t.remove(pos) =~= s);
    assert(t.contains(x)) by {
        assert(t[pos] == x);
    }
    assert(t.to_multiset() =~= s.to_multiset().insert(x));
}

/// Team counts depend only on who is there, not on the order.
pub proof fn lemma_count_team_of_permutation(a: Seq<Player>, b: Seq<Player>, t: Team)
    requires
        a.to_multiset() == b.to_multiset(),
    ensures
        count_team(a, t) == count_team(b, t),
    decreases a.len(),
{
    if a.len() == 0 {
        assert(b.to_multiset().len() == 0);
        assert(b =~= Seq::<Player>::empty());
    } else {
        let x = a.last();
        let a1 = a.drop_last();
        assert(a =~= a1.push(x));
        assert(a.to_multiset().count(x) > 0);
        assert(b.contains(x));
        let k = choose|k: int| 0 <= k < b.len() && b[k] == x;
        let b1 = b.remove(k);
        assert(b1.to_multiset() =~= a1.to_multiset());
        lemma_count_team_of_permutation(a1, b1, t);
        let f = |p: Player| p.team == t;
        a1.lemma_filter_push(x, f);
        assert(b =~= b.take(k) + (seq![x] + b.skip(k + 1)));
        assert(b1 =~= b.take(k) + b.skip(k + 1));
        Seq::filter_distributes_over_add(b.take(k), seq![x] + b.skip(k + 1), f);
        Seq::filter_distributes_over_add(seq![x], b.skip(k + 1), f);
        Seq::filter_distributes_over_add(b.take(k), b.skip(k + 1), f);
        Seq::<Player>::empty().lemma_filter_push(x, f);
        assert(seq![x] =~= Seq::<Player>::empty().push(x));
    }
}

/// The members of one team together with the members of the other are
/// all of `s`.
pub proof fn lemma_teams_partition(s: Seq<Player>, t: Team)
    ensures
        team_members(s, t).to_multiset().add(team_members(s, other_team(t)).to_multiset())
            == s.to_multiset(),
    decreases s.len(),
{
    if s.len() == 0 {
        assert(s.to_multiset() =~= Multiset::empty());
        assert(team_members(s, t).to_multiset().add(team_members(s, other_team(t)).to_multiset())
            =~= Multiset::empty());
    } else {
        let u = s.drop_last();
        let x = s.last();
        assert(s =~= u.push(x));
        lemma_teams_partition(u, t);
        u.lemma_filter_push(x, |p: Player| p.team == t);
        u.lemma_filter_push(x, |p: Player| p.team == other_team(t));
        assert(team_members(s, t).to_multiset().add(team_members(s, other_team(t)).to_multiset())
            =~= u.to_multiset().insert(x));
    }
}

/// The four players at their seats.
#[derive(Debug, PartialEq, Clone)]
pub struct Table {
    north: Player,
    east: Player,
    south: Player,
    west: Player,
}

impl Table {
    /// The players at north, east, south and west, in that order.
    pub closed spec fn seats(&self) -> Seq<Player> {
        seq![self.north, self.east, self.south, self.west]
    }

    /// Seats a balanced lobby of four after a high-card draw from a new,
    /// shuffled deck: the team of the lowest card takes north and south,
    /// the other team east and west.
    pub fn new(lobby: &Lobby) -> (r: Table)
        requires
            lobby.wf(),
            lobby@.len() == 4,
            is_balanced(lobby@),
        ensures
            partners_opposite(r.seats()),
            r.seats().to_multiset() == lobby@.to_multiset(),
    {
        let draws = Self::high_card_for_dealer_button(lobby);
        proof {
            lemma_count_team_of_permutation(players_of(draws@), lobby@, Team::Lajvarna);
            lemma_count_team_of_permutation(players_of(draws@), lobby@, Team::Gottarna);
        }
        Self::from_draws(&draws)
    }

    /// Each player of `lobby` draws a card from a new, shuffled deck; the
    /// pairs come back in ascending bridge value of the cards.
    pub fn high_card_for_dealer_button(lobby: &Lobby) -> (r: Vec<(Player, Card)>)
        requires
            lobby.wf(),
        ensures
            r@.len() == lobby@.len(),
            sorted_by_bridge(r@),
            players_of(r@).to_multiset() == lobby@.to_multiset(),
    {
        let mut deck = Deck::new();
        deck.shuffle();
        Self::draw_cards(lobby, &mut deck)
    }

    /// Each player of `lobby`, in lobby order, takes the card at the end of
    /// `deck`; the pairs come back in ascending bridge value of the cards.
    pub fn draw_cards(lobby: &Lobby, deck: &mut Deck) -> (r: Vec<(Player, Card)>)
        requires
            old(deck)@.len() >= lobby@.len(),
        ensures
            r@.len() == lobby@.len(),
            sorted_by_bridge(r@),
            r@.to_multiset() == drawn_pairs(lobby@, old(deck)@).to_multiset(),
            players_of(r@).to_multiset() == lobby@.to_multiset(),
            final(deck)@ == old(deck)@.take(old(deck)@.len() - lobby@.len()),
    {
        let ghost deck0 = deck@;
        let players = lobby.players();
        let mut sorted: Vec<(Player, Card)> = Vec::new();
        let mut i: usize = 0;
        while i < players.len()
            invariant
                players@ == lobby@,
                deck0 == old(deck)@,
                deck0.len() >= players@.len(),
                0 <= i <= players@.len(),
                deck@ == deck0.take(deck0.len() - i),
                sorted@.len() == i,
                sorted_by_bridge(sorted@),
                sorted@.to_multiset() == drawn_pairs(lobby@, deck0).take(i as int).to_multiset(),
                players_of(sorted@).to_multiset() == lobby@.take(i as int).to_multiset(),
            decreases players@.len() - i,
        {
            let card = deck.draw();
            let player = players[i].clone();
            let pos = insert_position(&sorted, card);
            let ghost before = sorted@;
            sorted.insert(pos, (player, card));
            proof {
                let x = (players@[i as int], card);
                assert(card == deck0[deck0.len() - 1 - i]);
                lemma_insert_to_multiset(before, pos as int, x);
                assert(drawn_pairs(lobby@, deck0).take(i + 1) =~= drawn_pairs(lobby@, deck0).take(
                    i as int,
                ).push(x));
                assert(lobby@.take(i + 1) =~= lobby@.take(i as int).push(x.0));
                assert(players_of(sorted@) =~= players_of(before).insert(pos as int, x.0));
                lemma_insert_to_multiset(players_of(before), pos as int, x.0);
                assert(deck@ =~= deck0.take(deck0.len() - (i + 1)));
                assert forall|a: int, b: int| 0 <= a < b < sorted@.len() implies bridge_value(
                    #[trigger] sorted@[a].1,
                ) <= bridge_value(#[trigger] sorted@[b].1) by {
                    if b < pos {
                    } else if b == pos {
                    } else if a < pos {
                        assert(sorted@[b] == before[b - 1]);
                    } else if a == pos {
                        assert(sorted@[b] == before[b - 1]);
                    } else {
                        assert(sorted@[b] == before[b - 1]);
                        assert(sorted@[a] == before[a - 1]);
                    }
                }
            }
            i = i + 1;
        }
        proof {
            assert(drawn_pairs(lobby@, deck0).take(i as int) =~= drawn_pairs(lobby@, deck0));
            assert(lobby@.take(i as int) =~= lobby@);
        }
        sorted
    }

    /// Seats the players of a sorted draw: the team of the first pair takes
    /// north and south, in draw order; the other team east and west.
    pub fn from_draws(draws: &Vec<(Player, Card)>) -> (r: Table)
        requires
            draws@.len() == 4,
            is_balanced(players_of(draws@)),
        ensures
            r.seats() == seating(draws@),
            partners_opposite(r.seats()),
            r.seats().to_multiset() == players_of(draws@).to_multiset(),
    {
        let ghost ps = players_of(draws@);
        let anchor = draws[0].0.team;
        let ghost other = other_team(anchor);
        let mut same: Vec<Player> = Vec::new();
        let mut rest: Vec<Player> = Vec::new();
        let mut i: usize = 0;
        while i < draws.len()
            invariant
                ps == players_of(draws@),
                anchor == anchor_team(draws@),
                other == other_team(anchor),
                0 <= i <= draws@.len(),
                same@ == team_members(ps.take(i as int), anchor),
                rest@ == team_members(ps.take(i as int), other),
            decreases draws@.len() - i,
        {
            proof {
                assert(ps.take(i + 1) =~= ps.take(i as int).push(ps[i as int]));
                ps.take(i as int).lemma_filter_push(ps[i as int], |p: Player| p.team == anchor);
                ps.take(i as int).lemma_filter_push(ps[i as int], |p: Player| p.team == other);
            }
            if draws[i].0.team == anchor {
                same.push(draws[i].0.clone());
            } else {
                rest.push(draws[i].0.clone());
            }
            i = i + 1;
        }
        proof {
            assert(ps.take(i as int) =~= ps);
            assert(count_team(ps, anchor) == 2);
            assert(count_team(ps, other) == 2);
            lemma_teams_partition(ps, anchor);
            let a = same@;
            let o = rest@;
            assert(a =~= seq![a[0]].push(a[1]));
            assert(o =~= seq![o[0]].push(o[1]));
            assert(seq![a[0]] =~= Seq::<Player>::empty().push(a[0]));
            assert(seq![o[0]] =~= Seq::<Player>::empty().push(o[0]));
            let seats = seq![a[0], o[0], a[1], o[1]];
            assert(seats =~= Seq::<Player>::empty().push(a[0]).push(o[0]).push(a[1]).push(o[1]));
            assert(seats.to_multiset() =~= a.to_multiset().add(o.to_multiset()));
        }
        Table {
            north: same[0].clone(),
            east: rest[0].clone(),
            south: same[1].clone(),
            west: rest[1].clone(),
        }
    }

    pub fn north(&self) -> (r: &Player)
        ensures
            *r == self.seats()[0],
    {
        &self.north
    }

    pub fn east(&self) -> (r: &Player)
        ensures
            *r == self.seats()[1],
    {
        &self.east
    }

    pub fn south(&self) -> (r: &Player)
        ensures
            *r == self.seats()[2],
    {
        &self.south
    }

    pub fn west(&self) -> (r: &Player)
        ensures
            *r == self.seats()[3],
    {
        &self.west
    }
}

/// Where `card` goes in `sorted`: after every pair whose card is not higher,
/// before the first pair whose card is higher.
fn insert_position(sorted: &Vec<(Player, Card)>, card: Card) -> (r: usize)
    ensures
        r <= sorted@.len(),
        forall|k: int| 0 <= k < r ==> bridge_value(#[trigger] sorted@[k].1) <= bridge_value(card),
        r < sorted@.len() ==> bridge_value(card) < bridge_value(sorted@[r as int].1),
{
    let mut pos: usize = 0;
    while pos < sorted.len()
        invariant
            pos <= sorted@.len(),
            forall|k: int| 0 <= k < pos ==> bridge_value(#[trigger] sorted@[k].1) <= bridge_value(card),
        decreases sorted@.len() - pos,
    {
        match card.compare_bridge_value(&sorted[pos].1) {
            std::cmp::Ordering::Less => {
                return pos;
            },
            _ => {},
        }
        pos = pos + 1;
    }
    pos
}

} // verus!
