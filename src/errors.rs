use vstd::prelude::*;

verus! {

/// Why a lobby could not start a game.
#[derive(Debug, PartialEq, Eq, Structural, Clone, Copy)]
pub enum GameError {
    RequiresFourReadyPlayers,
    UnbalancedTeams,
}

} // verus!
