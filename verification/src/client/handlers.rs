use vstd::prelude::*;
use crate::common::protocol::{ContentView, MessageContent, MessageType};
use crate::graphics::resources::PlayerCountState;

verus! {

/// What the client shows or does after a message from the server.
#[derive(Debug, PartialEq, Eq)]
pub enum Notice {
    /// A warning with the reason the server gave for a disconnection.
    Disconnected { reason: String },
    /// Information: `name` joined the game.
    Joined { name: String },
    /// Information: a status line from the server.
    ServerStatus { status: String },
    /// Information: a line of the waiting room.
    Lobby { msg: String },
    /// An error: a message of kind `kind` came with another kind of body.
    InvalidContent { kind: MessageType },
    /// A warning: a `Disconnect` came with another kind of body.
    MisplacedDisconnect,
}

/// Mathematical model of a notice.
pub enum NoticeView {
    Disconnected { reason: Seq<char> },
    Joined { name: Seq<char> },
    ServerStatus { status: Seq<char> },
    Lobby { msg: Seq<char> },
    InvalidContent { kind: MessageType },
    MisplacedDisconnect,
}

impl View for Notice {
    type V = NoticeView;

    open spec fn view(&self) -> NoticeView {
        match self {
            Notice::Disconnected { reason } => NoticeView::Disconnected { reason: reason@ },
            Notice::Joined { name } => NoticeView::Joined { name: name@ },
            Notice::ServerStatus { status } => NoticeView::ServerStatus { status: status@ },
            Notice::Lobby { msg } => NoticeView::Lobby { msg: msg@ },
            Notice::InvalidContent { kind } => NoticeView::InvalidContent { kind: *kind },
            Notice::MisplacedDisconnect => NoticeView::MisplacedDisconnect,
        }
    }
}

/// A `Disconnect` body shows its reason; any other body gets a warning.
pub fn handle_disconnect(content: &MessageContent) -> (n: Notice)
    ensures
        n@ == match content@ {
            ContentView::Disconnect { reason } => NoticeView::Disconnected { reason },
            _ => NoticeView::MisplacedDisconnect,
        },
{
    match content {
        MessageContent::Disconnect { reason } => Notice::Disconnected { reason: reason.clone() },
        _ => Notice::MisplacedDisconnect,
    }
}

/// A `ServerInfo` body shows its status; any other body is reported as invalid.
pub fn handle_server_info(content: &MessageContent) -> (n: Notice)
    ensures
        n@ == match content@ {
            ContentView::ServerInfo { server_status } => NoticeView::ServerStatus { status: server_status },
            _ => NoticeView::InvalidContent { kind: MessageType::ServerInfo },
        },
{
    match content {
        MessageContent::ServerInfo { server_status } => Notice::ServerStatus {
            status: server_status.clone(),
        },
        _ => Notice::InvalidContent { kind: MessageType::ServerInfo },
    }
}

/// A `NewConnection` body shows who joined; any other body is reported as invalid.
pub fn handle_new_connection(content: &MessageContent) -> (n: Notice)
    ensures
        n@ == match content@ {
            ContentView::NewConnection { name } => NoticeView::Joined { name },
            _ => NoticeView::InvalidContent { kind: MessageType::NewConnection },
        },
{
    match content {
        MessageContent::NewConnection { name } => Notice::Joined { name: name.clone() },
        _ => Notice::InvalidContent { kind: MessageType::NewConnection },
    }
}

/// A `WaitForPlayers` body: not enough players yet; the line is shown and the
/// game window opens. Any other body is reported as invalid and nothing opens.
/// The result is the notice and whether the game window opens.
pub fn handle_waiting(content: &MessageContent, state: &mut PlayerCountState) -> (r: (Notice, bool))
    ensures
        match content@ {
            ContentView::WaitForPlayers { msg } => {
                &&& r.0@ == NoticeView::Lobby { msg }
                &&& r.1
                &&& final(state).has_enough_players == false
                &&& final(state).player_count == old(state).player_count
            },
            _ => {
                &&& r.0@ == NoticeView::InvalidContent { kind: MessageType::WaitForPlayers }
                &&& !r.1
                &&& *final(state) == *old(state)
            },
        },
{
    match content {
        MessageContent::WaitForPlayers { msg } => {
            state.has_enough_players = false;
            (Notice::Lobby { msg: msg.clone() }, true)
        },
        _ => (Notice::InvalidContent { kind: MessageType::WaitForPlayers }, false),
    }
}

/// A `StartGame` body: when its text is `"start"` there are enough players;
/// the line is shown and the game window opens. Any other body is reported
/// as invalid and nothing opens. The result is the notice and whether the
/// game window opens.
pub fn handle_start(content: &MessageContent, state: &mut PlayerCountState) -> (r: (Notice, bool))
    ensures
        match content@ {
            ContentView::StartGame { msg } => {
                &&& r.0@ == NoticeView::Lobby { msg }
                &&& r.1
                &&& final(state).has_enough_players == (msg == "start"@ || old(
                    state,
                ).has_enough_players)
                &&& final(state).player_count == old(state).player_count
            },
            _ => {
                &&& r.0@ == NoticeView::InvalidContent { kind: MessageType::StartGame }
                &&& !r.1
                &&& *final(state) == *old(state)
            },
        },
{
    match content {
        MessageContent::StartGame { msg } => {
            let start = String::from_str("start");
            if *msg == start {
                state.has_enough_players = true;
            }
            (Notice::Lobby { msg: msg.clone() }, true)
        },
        _ => (Notice::InvalidContent { kind: MessageType::StartGame }, false),
    }
}

} // verus!
