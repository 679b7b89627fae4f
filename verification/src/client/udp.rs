use vstd::prelude::*;
use crate::client::handlers::{
    handle_disconnect, handle_new_connection, handle_server_info, handle_start, handle_waiting,
    Notice, NoticeView,
};
use crate::common::protocol::{ContentView, GameMessage, GameMessageView, MessageType};
use crate::common::sync::network_route;
use crate::graphics::resources::PlayerCountState;
use crate::graphics::states::GameState;
use crate::graphics::systems::waitting_page::next_screen;

verus! {

/// How many failed receives in a row make the client give up.
pub const MAX_RECEIVE_ERRORS: u32 = 5;

/// What the client does with a message from the server.
#[derive(Debug, PartialEq, Eq)]
pub struct ClientStep {
    /// What to show, if anything.
    pub notice: Option<Notice>,
    /// Whether the game window opens now.
    pub launch_game: bool,
    /// Whether the connection loop ends.
    pub stop: bool,
}

/// The models of an optional notice.
pub open spec fn opt_notice(n: Option<Notice>) -> Option<NoticeView> {
    match n {
        Some(x) => Some(x@),
        None => None,
    }
}

/// How the client reacts to a message: what it shows, whether the game
/// window opens, whether the loop ends, and the player-count state after.
pub struct Reaction {
    pub notice: Option<NoticeView>,
    pub launch_game: bool,
    pub stop: bool,
    pub state: PlayerCountState,
}

/// The state with its `has_enough_players` flag set to `b`.
pub open spec fn with_enough(s: PlayerCountState, b: bool) -> PlayerCountState {
    PlayerCountState { has_enough_players: b, ..s }
}

/// How the client reacts to `m` in state `s`: updates and actions of other
/// players are ignored; a `Disconnect` shows its reason and ends the loop;
/// a `NewConnection` shows who joined; a `ServerInfo` shows its status;
/// `WaitForPlayers` marks that players are missing, and `StartGame` with
/// text `"start"` that enough are there, and both show their line and open
/// the game window. A body that does not match the kind is reported as invalid
/// and changes nothing.
pub open spec fn reaction(m: GameMessageView, s: PlayerCountState) -> Reaction {
    let quiet = |n: NoticeView| Reaction { notice: Some(n), launch_game: false, stop: false, state: s };
    match m.message_type {
        MessageType::GameUpdate | MessageType::PlayerAction => Reaction {
            notice: None,
            launch_game: false,
            stop: false,
            state: s,
        },
        MessageType::Disconnect => Reaction {
            notice: Some(
                match m.content {
                    ContentView::Disconnect { reason } => NoticeView::Disconnected { reason },
                    _ => NoticeView::MisplacedDisconnect,
                },
            ),
            launch_game: false,
            stop: true,
            state: s,
        },
        MessageType::NewConnection => quiet(
            match m.content {
                ContentView::NewConnection { name } => NoticeView::Joined { name },
                _ => NoticeView::InvalidContent { kind: MessageType::NewConnection },
            },
        ),
        MessageType::ServerInfo => quiet(
            match m.content {
                ContentView::ServerInfo { server_status } => NoticeView::ServerStatus {
                    status: server_status,
                },
                _ => NoticeView::InvalidContent { kind: MessageType::ServerInfo },
            },
        ),
        MessageType::WaitForPlayers => match m.content {
            ContentView::WaitForPlayers { msg } => Reaction {
                notice: Some(NoticeView::Lobby { msg }),
                launch_game: true,
                stop: false,
                state: with_enough(s, false),
            },
            _ => quiet(NoticeView::InvalidContent { kind: MessageType::WaitForPlayers }),
        },
        MessageType::StartGame => match m.content {
            ContentView::StartGame { msg } => Reaction {
                notice: Some(NoticeView::Lobby { msg }),
                launch_game: true,
                stop: false,
                state: with_enough(s, msg == "start"@ || s.has_enough_players),
            },
            _ => quiet(NoticeView::InvalidContent { kind: MessageType::StartGame }),
        },
    }
}

/// The state after the game window routed `m` in state `s`.
pub open spec fn routed(m: GameMessageView, s: PlayerCountState) -> PlayerCountState {
    match network_route(m).1 {
        Some(b) => with_enough(s, b),
        None => s,
    }
}

/// A `StartGame` that says "start" takes the waiting room into the game,
/// whether the connection loop or the game window receives it.
pub proof fn law_start_message_opens_the_game(m: GameMessageView, s: PlayerCountState)
    requires
        m.message_type == MessageType::StartGame,
        m.content == (ContentView::StartGame { msg: "start"@ }),
    ensures
        next_screen(reaction(m, s).state) == Some(GameState::Game),
        next_screen(routed(m, s)) == Some(GameState::Game),
{
}

/// A `WaitForPlayers` keeps the waiting room waiting, whatever came before,
/// whether the connection loop or the game window receives it.
pub proof fn law_wait_message_keeps_the_room_waiting(m: GameMessageView, s: PlayerCountState)
    requires
        m.message_type == MessageType::WaitForPlayers,
        m.content is WaitForPlayers,
    ensures
        next_screen(reaction(m, s).state) is None,
        next_screen(routed(m, s)) is None,
{
}

/// Position updates and player actions that reach the client show nothing,
/// open nothing and change nothing: the connection loop goes on.
pub proof fn law_updates_keep_the_loop_running(m: GameMessageView, s: PlayerCountState)
    requires
        m.message_type == MessageType::GameUpdate || m.message_type == MessageType::PlayerAction,
    ensures
        reaction(m, s).notice is None,
        !reaction(m, s).launch_game,
        !reaction(m, s).stop,
        reaction(m, s).state == s,
{
}

/// Only a `Disconnect` ends the connection loop; only a lobby message
/// (`WaitForPlayers` or `StartGame`) opens the game window or changes whether
/// enough players are there; no message changes the player count.
pub proof fn law_only_disconnect_ends_the_loop(m: GameMessageView, s: PlayerCountState)
    ensures
        reaction(m, s).stop <==> m.message_type == MessageType::Disconnect,
        reaction(m, s).launch_game ==> m.message_type == MessageType::WaitForPlayers
            || m.message_type == MessageType::StartGame,
        reaction(m, s).state != s ==> m.message_type == MessageType::WaitForPlayers
            || m.message_type == MessageType::StartGame,
        reaction(m, s).state.player_count == s.player_count,
{
}

/// Whether a step and the state after it are the given reaction.
pub open spec fn matches_reaction(step: ClientStep, after: PlayerCountState, r: Reaction) -> bool {
    &&& opt_notice(step.notice) == r.notice
    &&& step.launch_game == r.launch_game
    &&& step.stop == r.stop
    &&& after == r.state
}

/// What a message from the server does on the client; see [`reaction`].
pub fn process_game_message(message: &GameMessage, state: &mut PlayerCountState) -> (step: ClientStep)
    ensures
        matches_reaction(step, *final(state), reaction(message@, *old(state))),
{
    match message.message_type {
        MessageType::GameUpdate => ClientStep { notice: None, launch_game: false, stop: false },
        MessageType::Disconnect => {
            let n = handle_disconnect(&message.content);
            ClientStep { notice: Some(n), launch_game: false, stop: true }
        },
        MessageType::NewConnection => {
            let n = handle_new_connection(&message.content);
            ClientStep { notice: Some(n), launch_game: false, stop: false }
        },
        MessageType::PlayerAction => ClientStep { notice: None, launch_game: false, stop: false },
        MessageType::ServerInfo => {
            let n = handle_server_info(&message.content);
            ClientStep { notice: Some(n), launch_game: false, stop: false }
        },
        MessageType::WaitForPlayers => {
            let (n, launch) = handle_waiting(&message.content, state);
            ClientStep { notice: Some(n), launch_game: launch, stop: false }
        },
        MessageType::StartGame => {
            let (n, launch) = handle_start(&message.content, state);
            ClientStep { notice: Some(n), launch_game: launch, stop: false }
        },
    }
}

/// One turn of the connection loop: a message was received, or data came
/// that is no message, or nothing could be received.
#[derive(Debug, PartialEq, Eq)]
pub enum ClientEvent {
    Received(GameMessage),
    Undecodable,
    ReceiveFailed,
}

/// A problem that the connection loop reports.
#[derive(PartialEq, Eq, Structural, Clone, Copy, Debug)]
pub enum LoopError {
    /// Data came that is no message.
    DecodeFailed,
    /// Nothing could be received.
    ReceiveFailed,
    /// Too many receives failed in a row; the player is disconnected.
    TooManyErrors,
}

/// What one turn of the connection loop does.
#[derive(Debug, PartialEq, Eq)]
pub struct LoopStep {
    /// The problems to report, in order.
    pub errors: Vec<LoopError>,
    /// What the message or the disconnection shows.
    pub step: ClientStep,
}

/// The count of failed receives in a row after a turn of kind `event`:
/// reset by a received message, kept by undecodable data, raised by a
/// failed receive.
pub open spec fn next_error_count(count: nat, event: ClientEvent) -> nat {
    match event {
        ClientEvent::Received(_) => 0,
        ClientEvent::Undecodable => count,
        ClientEvent::ReceiveFailed => count + 1,
    }
}

/// The connection loop, which waits for the server's messages until it is
/// told to stop or too many receives fail in a row.
pub struct ReceiveLoop {
    error_count: u32,
}

impl View for ReceiveLoop {
    type V = nat;

    /// The number of failed receives in a row.
    closed spec fn view(&self) -> nat {
        self.error_count as nat
    }
}

impl ReceiveLoop {
    /// A loop that has seen no failure.
    pub fn new() -> (l: ReceiveLoop)
        ensures
            l@ == 0,
    {
        ReceiveLoop { error_count: 0 }
    }

    /// The number of failed receives in a row.
    pub fn error_count(&self) -> (n: u32)
        ensures
            n == self@,
    {
        self.error_count
    }

    /// Handles one turn of the loop. A received message resets the failure
    /// count and is processed as [`process_game_message`] says; undecodable
    /// data is reported; a failed receive is reported and counted, and the
    /// [`MAX_RECEIVE_ERRORS`]-th in a row also reports too many errors, shows a
    /// disconnection for "Failed to receive data" and ends the loop.
    pub fn step(&mut self, event: ClientEvent, state: &mut PlayerCountState) -> (r: LoopStep)
        requires
            old(self)@ < MAX_RECEIVE_ERRORS,
        ensures
            final(self)@ == next_error_count(old(self)@, event),
            match event {
                ClientEvent::Received(m) => r.errors@.len() == 0 && matches_reaction(
                    r.step,
                    *final(state),
                    reaction(m@, *old(state)),
                ),
                ClientEvent::Undecodable => {
                    &&& r.errors@ == seq![LoopError::DecodeFailed]
                    &&& r.step.notice is None && !r.step.launch_game && !r.step.stop
                    &&& *final(state) == *old(state)
                },
                ClientEvent::ReceiveFailed => {
                    &&& *final(state) == *old(state)
                    &&& !r.step.launch_game
                    &&& if final(self)@ >= MAX_RECEIVE_ERRORS {
                        &&& r.errors@ == seq![LoopError::ReceiveFailed, LoopError::TooManyErrors]
                        &&& r.step.stop
                        &&& opt_notice(r.step.notice) == Some(
                            NoticeView::Disconnected { reason: "Failed to receive data"@ },
                        )
                    } else {
                        &&& r.errors@ == seq![LoopError::ReceiveFailed]
                        &&& !r.step.stop
                        &&& r.step.notice is None
                    }
                },
            },
    {
        match event {
            ClientEvent::Received(message) => {
                self.error_count = 0;
                let step = process_game_message(&message, state);
                LoopStep { errors: Vec::new(), step }
            },
            ClientEvent::Undecodable => {
                let mut errors = Vec::new();
                errors.push(LoopError::DecodeFailed);
                LoopStep { errors, step: ClientStep { notice: None, launch_game: false, stop: false } }
            },
            ClientEvent::ReceiveFailed => {
                self.error_count = self.error_count + 1;
                let mut errors = Vec::new();
                errors.push(LoopError::ReceiveFailed);
                if self.error_count >= MAX_RECEIVE_ERRORS {
                    errors.push(LoopError::TooManyErrors);
                    let notice = Notice::Disconnected {
                        reason: String::from_str("Failed to receive data"),
                    };
                    LoopStep { errors, step: ClientStep { notice: Some(notice), launch_game: false, stop: true } }
                } else {
                    LoopStep { errors, step: ClientStep { notice: None, launch_game: false, stop: false } }
                }
            },
        }
    }
}

} // verus!
