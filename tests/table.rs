use card_table::card::{Card, Rank, Suit};
use card_table::deck::Deck;
use card_table::game::lobby::Lobby;
use card_table::game::table::Table;
use card_table::game::{Player, Settings, Team};
use card_table::user::User;

fn setup_users() -> Vec<User> {
    vec![
        User::new("A"),
        User::new("B"),
        User::new("C"),
        User::new("D"),
    ]
}

fn setup_lobby() -> Lobby {
    let settings = Settings { to_win: 13 };
    Lobby::new(settings)
}

#[test]
fn high_card_for_dealer_button() {
    let users = setup_users();
    let mut lobby = setup_lobby();
    users.iter().for_each(|u| lobby.add_user(u));

    let high_card_draws = Table::high_card_for_dealer_button(&lobby);

    let cards = high_card_draws
        .iter()
        .map(|(_, c)| c.clone())
        .collect::<Vec<Card>>();

    let mut cards_sorted_by_bridge_rank = cards.clone();
    cards_sorted_by_bridge_rank.sort_by(|a, b| a.compare_bridge_value(b));

    assert_eq!(cards, cards_sorted_by_bridge_rank,);
}

#[test]
fn new_table() {
    let users = setup_users();
    let mut lobby = setup_lobby();
    users.iter().for_each(|u| lobby.add_user(u));

    let table = Table::new(&lobby);

    assert_eq!(table.north().team(), table.south().team());
    assert_eq!(table.east().team(), table.west().team());
}

#[test]
fn tables_never_mix_teams() {
    for _ in 0..50 {
        let users = setup_users();
        let mut lobby = setup_lobby();
        users.iter().for_each(|u| lobby.add_user(u));

        let table = Table::new(&lobby);

        assert_eq!(table.north().team(), table.south().team());
        assert_eq!(table.east().team(), table.west().team());
        assert_ne!(table.north().team(), table.east().team());
        for u in users.iter() {
            let seated = [table.north(), table.east(), table.south(), table.west()]
                .iter()
                .filter(|p| p.user() == u)
                .count();
            assert_eq!(seated, 1);
        }
    }
}

#[test]
fn draw_from_an_ordered_deck() {
    let users = setup_users();
    let mut lobby = setup_lobby();
    users.iter().for_each(|u| lobby.add_user(u));
    let mut deck = Deck::new();

    let draws = Table::draw_cards(&lobby, &mut deck);

    // A takes the ace of spades, B the king, C the queen, D the jack.
    assert_eq!(deck.len(), 48);
    assert_eq!(draws[0].0.user(), &users[3]);
    assert_eq!(draws[0].1, Card::new(Suit::Spades, Rank::Jack));
    assert_eq!(draws[1].0.user(), &users[2]);
    assert_eq!(draws[2].0.user(), &users[1]);
    assert_eq!(draws[3].0.user(), &users[0]);
    assert_eq!(draws[3].1, Card::new(Suit::Spades, Rank::Ace));
}

#[test]
fn lowest_card_team_takes_north_and_south() {
    let users = setup_users();
    let draws = vec![
        (Player::build(&users[0], Team::Gottarna), Card::new(Suit::Clubs, Rank::Two)),
        (Player::build(&users[1], Team::Lajvarna), Card::new(Suit::Hearts, Rank::Five)),
        (Player::build(&users[2], Team::Lajvarna), Card::new(Suit::Clubs, Rank::Nine)),
        (Player::build(&users[3], Team::Gottarna), Card::new(Suit::Spades, Rank::Ace)),
    ];

    let table = Table::from_draws(&draws);

    assert_eq!(table.north().user(), &users[0]);
    assert_eq!(table.south().user(), &users[3]);
    assert_eq!(table.east().user(), &users[1]);
    assert_eq!(table.west().user(), &users[2]);
}
