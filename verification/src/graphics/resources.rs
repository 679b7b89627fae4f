use vstd::prelude::*;

verus! {

/// Whether enough players have joined for the game to start.
#[derive(PartialEq, Eq, Structural, Clone, Copy, Debug)]
pub struct PlayerCountState {
    pub player_count: usize,
    pub has_enough_players: bool,
}

impl PlayerCountState {
    /// No player counted, not enough players.
    pub fn new() -> (s: Self)
        ensures
            s.player_count == 0,
            !s.has_enough_players,
    {
        PlayerCountState { player_count: 0, has_enough_players: false }
    }

    /// A copy of this state.
    pub fn copy(&self) -> (s: Self)
        ensures
            s == *self,
    {
        PlayerCountState { player_count: self.player_count, has_enough_players: self.has_enough_players }
    }
}

impl Default for PlayerCountState {
    fn default() -> (s: Self)
        ensures
            s.player_count == 0,
            !s.has_enough_players,
    {
        PlayerCountState::new()
    }
}

} // verus!
