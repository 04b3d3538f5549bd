use vstd::prelude::*;
use crate::user::User;
use crate::game::bid_round::BidRound;
use crate::game::table::Table;

pub mod bid_round;
pub mod lobby;
pub mod table;

verus! {

/// What a game is played to; carried along unchanged.
#[derive(Debug, PartialEq, Eq, Structural, Clone, Copy)]
pub struct Settings {
    pub to_win: u8,
}

/// One of the two partnerships.
#[derive(Debug, PartialEq, Eq, Structural, Clone, Copy)]
pub enum Team {
    Lajvarna,
    Gottarna,
}

/// The partnership that is not `t`.
pub open spec fn other_team(t: Team) -> Team {
    match t {
        Team::Lajvarna => Team::Gottarna,
        Team::Gottarna => Team::Lajvarna,
    }
}

/// A user in a lobby: the user, the team and whether the user is ready.
#[derive(Debug, PartialEq)]
pub struct Player {
    pub user: User,
    pub team: Team,
    pub ready: bool,
}

impl Clone for Player {
    fn clone(&self) -> (r: Player)
        ensures
            r == *self,
    {
        Player { user: self.user.clone(), team: self.team, ready: self.ready }
    }
}

impl Player {
    /// A player of `team` for `user`, not yet ready.
    pub fn build(user: &User, team: Team) -> (r: Player)
        ensures
            r == (Player { user: *user, team, ready: false }),
    {
        Player { user: user.clone(), team, ready: false }
    }

    pub fn user(&self) -> (r: &User)
        ensures
            *r == self.user,
    {
        &self.user
    }

    pub fn team(&self) -> (r: Team)
        ensures
            r == self.team,
    {
        self.team
    }
}

/// A started game: its settings and the seating drawn when it started.
#[derive(Debug, PartialEq, Clone)]
pub struct Game {
    settings: Settings,
    table: Table,
}

impl Game {
    pub closed spec fn spec_settings(&self) -> Settings {
        self.settings
    }

    pub closed spec fn spec_table(&self) -> Table {
        self.table
    }

    pub fn new(settings: Settings, table: Table) -> (r: Game)
        ensures
            r.spec_settings() == settings,
            r.spec_table() == table,
    {
        Game { settings, table }
    }

    pub fn settings(&self) -> (r: Settings)
        ensures
            r == self.spec_settings(),
    {
        self.settings
    }

    pub fn table(&self) -> (r: &Table)
        ensures
            *r == self.spec_table(),
    {
        &self.table
    }

    /// Opens the auction of a new round, dealt from a new shuffled deck,
    /// with north as dealer.
    pub fn start_round(&self) -> (r: BidRound)
        ensures
            r.spec_dealer() == 0,
            r.spec_bids() == Seq::<bid_round::Bid>::empty(),
            r.spec_hands().len() == 4,
            forall|h: int| 0 <= h < 4 ==> (#[trigger] r.spec_hands()[h])@.len() == 13,
            crate::deck::cards_of_four(
                r.spec_hands()[0]@,
                r.spec_hands()[1]@,
                r.spec_hands()[2]@,
                r.spec_hands()[3]@,
            ) == crate::deck::full_deck().to_multiset(),
    {
        BidRound::new(0)
    }
}

} // verus!
