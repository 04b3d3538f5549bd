use vstd::prelude::*;
use crate::errors::GameError;
use crate::game::{Game, Player, Settings, Team};
use crate::game::table::{Table, partners_opposite};
use crate::user::User;

verus! {

broadcast use vstd::seq_lib::group_seq_properties, vstd::seq_lib::group_filter_ensures;

/// The players of `s` who play for `t`, in their order in `s`.
pub open spec fn team_members(s: Seq<Player>, t: Team) -> Seq<Player> {
    s.filter(|p: Player| p.team == t)
}

/// How many of `s` play for `t`.
pub open spec fn count_team(s: Seq<Player>, t: Team) -> nat {
    team_members(s, t).len()
}

/// How many of `s` are ready.
pub open spec fn count_ready(s: Seq<Player>) -> nat {
    s.filter(|p: Player| p.ready).len()
}

/// Exactly two players on each team.
pub open spec fn is_balanced(s: Seq<Player>) -> bool {
    count_team(s, Team::Lajvarna) == 2 && count_team(s, Team::Gottarna) == 2
}

/// The team a newcomer joins: Lajvarna unless it already has more players.
pub open spec fn team_to_assign(s: Seq<Player>) -> Team {
    if count_team(s, Team::Lajvarna) <= count_team(s, Team::Gottarna) {
        Team::Lajvarna
    } else {
        Team::Gottarna
    }
}

/// Whether a player of `s` is the user with identity `id`.
pub open spec fn has_user(s: Seq<Player>, id: u64) -> bool {
    exists|i: int| 0 <= i < s.len() && #[trigger] s[i].user.id == id
}

/// No user holds two places.
pub open spec fn ids_unique(s: Seq<Player>) -> bool {
    forall|i: int, j: int| 0 <= i < j < s.len() ==> #[trigger] s[i].user.id != #[trigger] s[j].user.id
}

/// At most four players, each a different user.
pub open spec fn lobby_wf(s: Seq<Player>) -> bool {
    s.len() <= 4 && ids_unique(s)
}

/// The players after `u` asks to join: refused when already present or
/// when four players are there, else appended, not ready, to the team
/// that `team_to_assign` picks.
pub open spec fn after_join(s: Seq<Player>, u: User) -> Seq<Player> {
    if has_user(s, u.id) || s.len() >= 4 {
        s
    } else {
        s.push(Player { user: u, team: team_to_assign(s), ready: false })
    }
}

/// The players after the user with identity `id` leaves.
pub open spec fn after_leave(s: Seq<Player>, id: u64) -> Seq<Player> {
    s.filter(|p: Player| p.user.id != id)
}

/// The players after the user with identity `id` moves to team `t`.
pub open spec fn with_team(s: Seq<Player>, id: u64, t: Team) -> Seq<Player> {
    s.map_values(
        |p: Player|
            if p.user.id == id {
                Player { user: p.user, team: t, ready: p.ready }
            } else {
                p
            },
    )
}

/// The players after the user with identity `id` sets its ready flag to `b`.
pub open spec fn with_ready(s: Seq<Player>, id: u64, b: bool) -> Seq<Player> {
    s.map_values(
        |p: Player|
            if p.user.id == id {
                Player { user: p.user, team: p.team, ready: b }
            } else {
                p
            },
    )
}

proof fn lemma_filter_keeps_unique(s: Seq<Player>, f: spec_fn(Player) -> bool)
    requires
        ids_unique(s),
    ensures
        ids_unique(s.filter(f)),
    decreases s.len(),
{
    if s.len() > 0 {
        let t = s.drop_last();
        assert(ids_unique(t));
        lemma_filter_keeps_unique(t, f);
        let ft = t.filter(f);
        assert(s =~= t.push(s.last()));
        t.lemma_filter_push(s.last(), f);
        if f(s.last()) {
            assert forall|a: int| 0 <= a < ft.len() implies #[trigger] ft[a].user.id != s.last().user.id by {
                assert(ft.contains(ft[a]));
                t.lemma_filter_contains_rev(f, ft[a]);
                let k = choose|k: int| 0 <= k < t.len() && t[k] == ft[a];
                assert(s[k] == t[k]);
            }
        }
    }
}

/// Why a lobby with players `s` cannot start, if it cannot: readiness is
/// checked before balance.
pub open spec fn start_error(s: Seq<Player>) -> Option<GameError> {
    if count_ready(s) != 4 {
        Some(GameError::RequiresFourReadyPlayers)
    } else if !is_balanced(s) {
        Some(GameError::UnbalancedTeams)
    } else {
        None
    }
}

/// The players after each of `users` asks to join an empty lobby, in order.
pub open spec fn joined_all(users: Seq<User>) -> Seq<Player>
    decreases users.len(),
{
    if users.len() == 0 {
        Seq::empty()
    } else {
        after_join(joined_all(users.drop_last()), users.last())
    }
}

/// Asking to join a second time changes nothing.
pub proof fn lemma_join_twice(s: Seq<Player>, u: User)
    ensures
        after_join(after_join(s, u), u) == after_join(s, u),
{
    let t = after_join(s, u);
    if !has_user(s, u.id) && s.len() < 4 {
        assert(t[s.len() as int].user.id == u.id);
    }
}

/// A full lobby refuses a newcomer, who stays absent.
pub proof fn lemma_full_lobby_refuses(s: Seq<Player>, u: User)
    requires
        s.len() == 4,
        !has_user(s, u.id),
    ensures
        after_join(s, u) == s,
        !has_user(after_join(s, u), u.id),
{
}

/// Removing a user who is not there changes nothing.
pub proof fn lemma_leave_absent(s: Seq<Player>, id: u64)
    requires
        !has_user(s, id),
    ensures
        after_leave(s, id) == s,
    decreases s.len(),
{
    if s.len() > 0 {
        let t = s.drop_last();
        assert(s =~= t.push(s.last()));
        assert(!has_user(t, id)) by {
            assert forall|i: int| 0 <= i < t.len() implies #[trigger] t[i].user.id != id by {
                assert(s[i] == t[i]);
            }
        }
        lemma_leave_absent(t, id);
        t.lemma_filter_push(s.last(), |p: Player| p.user.id != id);
        assert(s.last() == s[s.len() - 1]);
    }
}

/// Users who only join, with no team changes, are spread evenly:
/// Lajvarna has as many players as Gottarna, or one more.
pub proof fn lemma_joins_alternate(users: Seq<User>)
    ensures
        count_team(joined_all(users), Team::Gottarna) <= count_team(
            joined_all(users),
            Team::Lajvarna,
        ) <= count_team(joined_all(users), Team::Gottarna) + 1,
        count_team(joined_all(users), Team::Lajvarna) + count_team(
            joined_all(users),
            Team::Gottarna,
        ) == joined_all(users).len(),
    decreases users.len(),
{
    if users.len() > 0 {
        let s = joined_all(users.drop_last());
        lemma_joins_alternate(users.drop_last());
        let u = users.last();
        if !(has_user(s, u.id) || s.len() >= 4) {
            let p = Player { user: u, team: team_to_assign(s), ready: false };
            s.lemma_filter_push(p, |q: Player| q.team == Team::Lajvarna);
            s.lemma_filter_push(p, |q: Player| q.team == Team::Gottarna);
        }
    }
}

/// Four users who only join, with no team changes, make balanced teams.
pub proof fn lemma_four_joins_balance(users: Seq<User>)
    requires
        joined_all(users).len() == 4,
    ensures
        is_balanced(joined_all(users)),
{
    lemma_joins_alternate(users);
}

/// A room of at most four players, before a game starts.
#[derive(Debug, PartialEq, Clone)]
pub struct Lobby {
    settings: Settings,
    players: Vec<Player>,
}

impl View for Lobby {
    type V = Seq<Player>;

    closed spec fn view(&self) -> Seq<Player> {
        self.players@
    }
}

impl Lobby {
    pub closed spec fn spec_settings(&self) -> Settings {
        self.settings
    }

    pub open spec fn wf(&self) -> bool {
        lobby_wf(self@)
    }

    /// An empty lobby.
    pub fn new(settings: Settings) -> (r: Lobby)
        ensures
            r@ == Seq::<Player>::empty(),
            r.spec_settings() == settings,
            r.wf(),
    {
        Lobby { settings, players: Vec::new() }
    }

    pub fn settings(&self) -> (r: Settings)
        ensures
            r == self.spec_settings(),
    {
        self.settings
    }

    pub fn players(&self) -> (r: &Vec<Player>)
        ensures
            r@ == self@,
    {
        &self.players
    }

    fn team_count(&self, team: Team) -> (r: usize)
        ensures
            r == count_team(self@, team),
    {
        let mut n: usize = 0;
        let mut i: usize = 0;
        while i < self.players.len()
            invariant
                0 <= i <= self@.len(),
                n <= i,
                n == count_team(self@.take(i as int), team),
            decreases self@.len() - i,
        {
            proof {
                assert(self@.take(i + 1) =~= self@.take(i as int).push(self@[i as int]));
                self@.take(i as int).lemma_filter_push(self@[i as int], |p: Player| p.team == team);
            }
            if self.players[i].team == team {
                n = n + 1;
            }
            i = i + 1;
        }
        proof {
            assert(self@.take(i as int) =~= self@);
        }
        n
    }

    /// How many players are ready.
    pub fn ready_count(&self) -> (r: usize)
        ensures
            r == count_ready(self@),
    {
        let mut n: usize = 0;
        let mut i: usize = 0;
        while i < self.players.len()
            invariant
                0 <= i <= self@.len(),
                n <= i,
                n == count_ready(self@.take(i as int)),
            decreases self@.len() - i,
        {
            proof {
                assert(self@.take(i + 1) =~= self@.take(i as int).push(self@[i as int]));
                self@.take(i as int).lemma_filter_push(self@[i as int], |p: Player| p.ready);
            }
            if self.players[i].ready {
                n = n + 1;
            }
            i = i + 1;
        }
        proof {
            assert(self@.take(i as int) =~= self@);
        }
        n
    }

    /// Whether each team has exactly two players.
    pub fn balanced_teams(&self) -> (r: bool)
        ensures
            r == is_balanced(self@),
    {
        self.team_count(Team::Lajvarna) == 2 && self.team_count(Team::Gottarna) == 2
    }

    /// The team the next user to join is put on.
    pub fn team_to_assign_to(&self) -> (r: Team)
        ensures
            r == team_to_assign(self@),
    {
        let lajvarna = self.team_count(Team::Lajvarna);
        let gottarna = self.team_count(Team::Gottarna);
        if lajvarna <= gottarna {
            Team::Lajvarna
        } else {
            Team::Gottarna
        }
    }

    fn contains_user(&self, user: &User) -> (r: bool)
        ensures
            r == has_user(self@, user.id),
    {
        let mut i: usize = 0;
        while i < self.players.len()
            invariant
                0 <= i <= self@.len(),
                forall|k: int| 0 <= k < i ==> #[trigger] self@[k].user.id != user.id,
            decreases self@.len() - i,
        {
            if self.players[i].user.id == user.id {
                return true;
            }
            i = i + 1;
        }
        false
    }

    /// Lets `user` join, unless the user is already here or the lobby is full.
    pub fn add_user(&mut self, user: &User)
        requires
            old(self).wf(),
        ensures
            final(self).wf(),
            final(self)@ == after_join(old(self)@, *user),
            final(self).spec_settings() == old(self).spec_settings(),
    {
        let player = Player::build(user, self.team_to_assign_to());
        if self.contains_user(user) {
            return;
        }
        if self.players.len() == 4 {
            return;
        }
        self.players.push(player);
    }

    /// Removes `user`, if present.
    pub fn del_user(&mut self, user: &User)
        requires
            old(self).wf(),
        ensures
            final(self).wf(),
            final(self)@ == after_leave(old(self)@, user.id),
            final(self).spec_settings() == old(self).spec_settings(),
    {
        let ghost s = self@;
        let ghost f = |p: Player| p.user.id != user.id;
        let mut kept: Vec<Player> = Vec::new();
        let mut i: usize = 0;
        while i < self.players.len()
            invariant
                s == self@,
                f == (|p: Player| p.user.id != user.id),
                0 <= i <= s.len(),
                kept@ == s.take(i as int).filter(f),
            decreases s.len() - i,
        {
            proof {
                assert(s.take(i + 1) =~= s.take(i as int).push(s[i as int]));
                s.take(i as int).lemma_filter_push(s[i as int], f);
            }
            if self.players[i].user.id != user.id {
                kept.push(self.players[i].clone());
            }
            i = i + 1;
        }
        proof {
            assert(s.take(i as int) =~= s);
            lemma_filter_keeps_unique(s, f);
            s.lemma_filter_len(f);
        }
        self.players = kept;
    }

    /// Moves `user`, if present, to `team`.
    pub fn change_team(&mut self, user: &User, team: Team)
        requires
            old(self).wf(),
        ensures
            final(self).wf(),
            final(self)@ == with_team(old(self)@, user.id, team),
            final(self).spec_settings() == old(self).spec_settings(),
    {
        let ghost s = self@;
        let mut i: usize = 0;
        while i < self.players.len()
            invariant
                s.len() == self@.len(),
                self.settings == old(self).settings,
                s == old(self)@,
                0 <= i <= s.len(),
                forall|k: int| 0 <= k < i ==> #[trigger] self@[k] == with_team(s, user.id, team)[k],
                forall|k: int| i <= k < s.len() ==> #[trigger] self@[k] == s[k],
            decreases s.len() - i,
        {
            if self.players[i].user.id == user.id {
                let mut p = self.players[i].clone();
                p.team = team;
                self.players.set(i, p);
            }
            i = i + 1;
        }
        proof {
            assert(self@ =~= with_team(s, user.id, team));
        }
    }

    /// Marks `user`, if present, as ready.
    pub fn ready_up(&mut self, user: &User)
        requires
            old(self).wf(),
        ensures
            final(self).wf(),
            final(self)@ == with_ready(old(self)@, user.id, true),
            final(self).spec_settings() == old(self).spec_settings(),
    {
        self.set_ready(user, true);
    }

    /// Marks `user`, if present, as not ready.
    pub fn unready(&mut self, user: &User)
        requires
            old(self).wf(),
        ensures
            final(self).wf(),
            final(self)@ == with_ready(old(self)@, user.id, false),
            final(self).spec_settings() == old(self).spec_settings(),
    {
        self.set_ready(user, false);
    }

    fn set_ready(&mut self, user: &User, ready: bool)
        requires
            old(self).wf(),
        ensures
            final(self).wf(),
            final(self)@ == with_ready(old(self)@, user.id, ready),
            final(self).spec_settings() == old(self).spec_settings(),
    {
        let ghost s = self@;
        let mut i: usize = 0;
        while i < self.players.len()
            invariant
                s.len() == self@.len(),
                self.settings == old(self).settings,
                s == old(self)@,
                0 <= i <= s.len(),
                forall|k: int| 0 <= k < i ==> #[trigger] self@[k] == with_ready(s, user.id, ready)[k],
                forall|k: int| i <= k < s.len() ==> #[trigger] self@[k] == s[k],
            decreases s.len() - i,
        {
            if self.players[i].user.id == user.id {
                let mut p = self.players[i].clone();
                p.ready = ready;
                self.players.set(i, p);
            }
            i = i + 1;
        }
        proof {
            assert(self@ =~= with_ready(s, user.id, ready));
        }
    }

    /// Starts a game when all four players are ready and the teams are two
    /// against two; the seating comes from a high-card draw.
    pub fn start_game(&self) -> (r: Result<Game, GameError>)
        requires
            self.wf(),
        ensures
            start_error(self@) is Some ==> r == Err::<Game, GameError>(start_error(self@).unwrap()),
            start_error(self@) is None ==> r is Ok,
            r is Ok ==> r.unwrap().spec_settings() == self.spec_settings(),
            r is Ok ==> partners_opposite(r.unwrap().spec_table().seats()),
            r is Ok ==> r.unwrap().spec_table().seats().to_multiset() == self@.to_multiset(),
    {
        if self.ready_count() != 4 {
            return Err(GameError::RequiresFourReadyPlayers);
        }
        if !self.balanced_teams() {
            return Err(GameError::UnbalancedTeams);
        }
        proof {
            self@.lemma_filter_len(|p: Player| p.ready);
        }
        let table = Table::new(self);
        Ok(Game::new(self.settings, table))
    }
}

} // verus!
