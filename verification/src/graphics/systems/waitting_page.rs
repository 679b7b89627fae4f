use vstd::prelude::*;
use crate::graphics::resources::PlayerCountState;
use crate::graphics::states::GameState;

verus! {

/// The screen the waiting room moves to from `state`: the game, once enough
/// players are there; otherwise it stays.
pub open spec fn next_screen(state: PlayerCountState) -> Option<GameState> {
    if state.has_enough_players {
        Some(GameState::Game)
    } else {
        None
    }
}

/// The screen the waiting room moves to; see [`next_screen`].
pub fn check_player_count(state: &PlayerCountState) -> (next: Option<GameState>)
    ensures
        next == next_screen(*state),
{
    if state.has_enough_players {
        Some(GameState::Game)
    } else {
        None
    }
}

} // verus!
