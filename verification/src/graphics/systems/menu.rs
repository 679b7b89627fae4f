use vstd::prelude::*;
use crate::graphics::states::{GameState, MenuState};
use crate::graphics::systems::button::MenuButtonAction;

verus! {

/// A message that the menu sends to the server.
#[derive(PartialEq, Eq, Structural, Clone, Copy, Debug)]
pub enum MenuMessage {
    /// The player leaves, with the reason "You press quit".
    Disconnect,
    /// The player is ready to play.
    Ready,
}

/// What pressing a menu button does.
#[derive(PartialEq, Eq, Structural, Clone, Copy, Debug)]
pub struct MenuOutcome {
    pub next_game_state: Option<GameState>,
    pub next_menu_state: Option<MenuState>,
    pub send: Option<MenuMessage>,
    pub exit: bool,
}

/// What pressing the button of `action` does: Quit tells the server and
/// closes the game; Play moves to the waiting room, tells the server the
/// player is ready and closes the help panel; Options opens the help panel.
pub open spec fn menu_outcome(action: MenuButtonAction) -> MenuOutcome {
    match action {
        MenuButtonAction::Quit => MenuOutcome {
            next_game_state: None,
            next_menu_state: None,
            send: Some(MenuMessage::Disconnect),
            exit: true,
        },
        MenuButtonAction::Play => MenuOutcome {
            next_game_state: Some(GameState::Waitting),
            next_menu_state: Some(MenuState::Disabled),
            send: Some(MenuMessage::Ready),
            exit: false,
        },
        MenuButtonAction::Options => MenuOutcome {
            next_game_state: None,
            next_menu_state: Some(MenuState::Options),
            send: None,
            exit: false,
        },
    }
}

/// Only the Quit button closes the game, and it is the one that says goodbye
/// to the server; only Play goes to the waiting room and says the player is
/// ready; only the help button opens the help panel.
pub proof fn law_only_quit_exits(action: MenuButtonAction)
    ensures
        menu_outcome(action).exit <==> action == MenuButtonAction::Quit,
        menu_outcome(action).send == Some(MenuMessage::Disconnect) <==> action == MenuButtonAction::Quit,
        menu_outcome(action).send == Some(MenuMessage::Ready) <==> action == MenuButtonAction::Play,
        menu_outcome(action).next_game_state == Some(GameState::Waitting) <==> action
            == MenuButtonAction::Play,
        menu_outcome(action).next_game_state is Some ==> action == MenuButtonAction::Play,
        menu_outcome(action).next_menu_state == Some(MenuState::Options) <==> action
            == MenuButtonAction::Options,
{
}

/// What pressing the button of `action` does; see [`menu_outcome`].
pub fn menu_action(action: MenuButtonAction) -> (o: MenuOutcome)
    ensures
        o == menu_outcome(action),
{
    match action {
        MenuButtonAction::Quit => MenuOutcome {
            next_game_state: None,
            next_menu_state: None,
            send: Some(MenuMessage::Disconnect),
            exit: true,
        },
        MenuButtonAction::Play => MenuOutcome {
            next_game_state: Some(GameState::Waitting),
            next_menu_state: Some(MenuState::Disabled),
            send: Some(MenuMessage::Ready),
            exit: false,
        },
        MenuButtonAction::Options => MenuOutcome {
            next_game_state: None,
            next_menu_state: Some(MenuState::Options),
            send: None,
            exit: false,
        },
    }
}

} // verus!
