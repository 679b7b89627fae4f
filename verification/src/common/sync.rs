use vstd::prelude::*;
use crate::common::protocol::{ContentView, GameMessage, GameMessageView, MessageContent, MessageType};
use crate::graphics::resources::PlayerCountState;

verus! {

/// Where the game window sends a message it polled from the server.
#[derive(Debug, PartialEq, Eq)]
pub enum NetworkRoute {
    /// A position update, queued for the remote players' system.
    Queue,
    /// A lobby message whose line is shown.
    Show { msg: String },
    /// Anything else, which is dropped.
    Ignore,
}

/// Mathematical model of a route.
pub enum NetworkRouteView {
    Queue,
    Show { msg: Seq<char> },
    Ignore,
}

impl View for NetworkRoute {
    type V = NetworkRouteView;

    open spec fn view(&self) -> NetworkRouteView {
        match self {
            NetworkRoute::Queue => NetworkRouteView::Queue,
            NetworkRoute::Show { msg } => NetworkRouteView::Show { msg: msg@ },
            NetworkRoute::Ignore => NetworkRouteView::Ignore,
        }
    }
}

/// The route of `m`, and the value of `has_enough_players` after it when
/// it changes: `GameUpdate` is queued; a `StartGame` body says there are
/// enough players and a `WaitForPlayers` body that there are not, and both
/// show their line; anything else is dropped.
pub open spec fn network_route(m: GameMessageView) -> (NetworkRouteView, Option<bool>) {
    if m.message_type == MessageType::GameUpdate {
        (NetworkRouteView::Queue, None)
    } else if m.message_type == MessageType::StartGame && m.content is StartGame {
        (NetworkRouteView::Show { msg: m.content->StartGame_msg }, Some(true))
    } else if m.message_type == MessageType::WaitForPlayers && m.content is WaitForPlayers {
        (NetworkRouteView::Show { msg: m.content->WaitForPlayers_msg }, Some(false))
    } else {
        (NetworkRouteView::Ignore, None)
    }
}

/// Routes a message polled by the game window, updating whether enough
/// players are there as [`network_route`] says.
pub fn handle_game_message(message: &GameMessage, state: &mut PlayerCountState) -> (route: NetworkRoute)
    ensures
        route@ == network_route(message@).0,
        final(state).player_count == old(state).player_count,
        final(state).has_enough_players == match network_route(message@).1 {
            Some(b) => b,
            None => old(state).has_enough_players,
        },
{
    match message.message_type {
        MessageType::GameUpdate => NetworkRoute::Queue,
        MessageType::StartGame => match &message.content {
            MessageContent::StartGame { msg } => {
                state.has_enough_players = true;
                NetworkRoute::Show { msg: msg.clone() }
            },
            _ => NetworkRoute::Ignore,
        },
        MessageType::WaitForPlayers => match &message.content {
            MessageContent::WaitForPlayers { msg } => {
                state.has_enough_players = false;
                NetworkRoute::Show { msg: msg.clone() }
            },
            _ => NetworkRoute::Ignore,
        },
        _ => NetworkRoute::Ignore,
    }
}

} // verus!
