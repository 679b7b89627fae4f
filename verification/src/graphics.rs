//! State of the game window: its screens, its menu and the player-count flag.

pub mod resources;
pub mod states;
pub mod systems;
