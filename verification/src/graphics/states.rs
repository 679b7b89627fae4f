use vstd::prelude::*;

verus! {

/// The screen the game window shows.
#[derive(PartialEq, Eq, Structural, Clone, Copy, Debug)]
pub enum GameState {
    Menu,
    Waitting,
    Game,
}

/// Whether the help panel of the menu is open.
#[derive(PartialEq, Eq, Structural, Clone, Copy, Debug)]
pub enum MenuState {
    Disabled,
    Options,
}

} // verus!
