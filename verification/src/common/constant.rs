use vstd::prelude::*;

verus! {

/// Port on which the server listens.
pub const PORT: u16 = 8080;

/// Health points of a player in the full game.
pub const HEALTH_NBR: u32 = 5;

/// Where the player's model is downloaded from.
pub const PLAYER_URL: &'static str = "https://raw.githubusercontent.com/Baabacar/player_model/main/player.glb";

/// Where the enemies' model is downloaded from.
pub const ENEMY_URL: &'static str = "https://raw.githubusercontent.com/Baabacar/player_model/main/enemy.glb";

/// Where the player's model is stored.
pub const PLAYER_PATH: &'static str = "assets/player.glb";

/// Where the enemies' model is stored.
pub const ENEMY_PATH: &'static str = "assets/enemy.glb";

/// Smallest number of players that a game waits for.
pub const DEFAULT_MIN_PLAYERS: usize = 2;

/// Number of players that the server waits for before it starts a game.
pub struct PlayerCount {
    min_players: usize,
}

impl PlayerCount {
    /// The expected number of players, as a spec value.
    pub closed spec fn spec_min_players(&self) -> usize {
        self.min_players
    }

    /// A count that expects `min_players` players.
    pub fn new(min_players: usize) -> (count: Self)
        ensures
            count.spec_min_players() == min_players,
    {
        PlayerCount { min_players }
    }

    /// The expected number of players.
    pub fn get_min_players(&self) -> (n: usize)
        ensures
            n == self.spec_min_players(),
    {
        self.min_players
    }

    /// Replaces the expected number of players.
    pub fn set_min_players(&mut self, min_players: usize)
        ensures
            final(self).spec_min_players() == min_players,
    {
        self.min_players = min_players;
    }
}

impl Default for PlayerCount {
    /// A count that expects no player.
    fn default() -> (count: Self)
        ensures
            count.spec_min_players() == 0,
    {
        PlayerCount::new(0)
    }
}

} // verus!
