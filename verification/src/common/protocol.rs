use vstd::prelude::*;

verus! {

/// Kind of a message exchanged between the server and the clients.
#[derive(PartialEq, Eq, Structural, Clone, Copy, Debug)]
pub enum MessageType {
    NewConnection,
    GameUpdate,
    PlayerAction,
    ServerInfo,
    Disconnect,
    WaitForPlayers,
    StartGame,
}

/// Body of a message, holding the values that the routing rules read.
///
/// Positions, rotations and timestamps travel beside this value: no rule of
/// the library reads them.
#[derive(Debug, PartialEq, Eq)]
pub enum MessageContent {
    NewConnection { name: String },
    GameUpdate { sequence_number: u32 },
    PlayerAction { ready: bool, sequence_number: u32 },
    ServerInfo { server_status: String },
    Disconnect { reason: String },
    WaitForPlayers { msg: String },
    StartGame { msg: String },
}

/// Mathematical model of a message body.
pub enum ContentView {
    NewConnection { name: Seq<char> },
    GameUpdate { sequence_number: u32 },
    PlayerAction { ready: bool, sequence_number: u32 },
    ServerInfo { server_status: Seq<char> },
    Disconnect { reason: Seq<char> },
    WaitForPlayers { msg: Seq<char> },
    StartGame { msg: Seq<char> },
}

impl View for MessageContent {
    type V = ContentView;

    open spec fn view(&self) -> ContentView {
        match self {
            MessageContent::NewConnection { name } => ContentView::NewConnection { name: name@ },
            MessageContent::GameUpdate { sequence_number } => ContentView::GameUpdate {
                sequence_number: *sequence_number,
            },
            MessageContent::PlayerAction { ready, sequence_number } => ContentView::PlayerAction {
                ready: *ready,
                sequence_number: *sequence_number,
            },
            MessageContent::ServerInfo { server_status } => ContentView::ServerInfo {
                server_status: server_status@,
            },
            MessageContent::Disconnect { reason } => ContentView::Disconnect { reason: reason@ },
            MessageContent::WaitForPlayers { msg } => ContentView::WaitForPlayers { msg: msg@ },
            MessageContent::StartGame { msg } => ContentView::StartGame { msg: msg@ },
        }
    }
}

impl MessageContent {
    /// A copy of this body.
    pub fn copy(&self) -> (c: MessageContent)
        ensures
            c@ == self@,
    {
        match self {
            MessageContent::NewConnection { name } => MessageContent::NewConnection {
                name: name.clone(),
            },
            MessageContent::GameUpdate { sequence_number } => MessageContent::GameUpdate {
                sequence_number: *sequence_number,
            },
            MessageContent::PlayerAction { ready, sequence_number } => MessageContent::PlayerAction {
                ready: *ready,
                sequence_number: *sequence_number,
            },
            MessageContent::ServerInfo { server_status } => MessageContent::ServerInfo {
                server_status: server_status.clone(),
            },
            MessageContent::Disconnect { reason } => MessageContent::Disconnect {
                reason: reason.clone(),
            },
            MessageContent::WaitForPlayers { msg } => MessageContent::WaitForPlayers {
                msg: msg.clone(),
            },
            MessageContent::StartGame { msg } => MessageContent::StartGame { msg: msg.clone() },
        }
    }
}

/// A message: its kind, the name of its sender and its body.
#[derive(Debug, PartialEq, Eq)]
pub struct GameMessage {
    pub message_type: MessageType,
    pub sender: String,
    pub content: MessageContent,
}

/// Mathematical model of a message.
pub struct GameMessageView {
    pub message_type: MessageType,
    pub sender: Seq<char>,
    pub content: ContentView,
}

impl View for GameMessage {
    type V = GameMessageView;

    open spec fn view(&self) -> GameMessageView {
        GameMessageView {
            message_type: self.message_type,
            sender: self.sender@,
            content: self.content@,
        }
    }
}

/// The message by which a client leaves: a `Disconnect` carrying `reason`,
/// sent in the name of `player_name`.
pub fn send_disconnect_message(player_name: &str, reason: &str) -> (m: GameMessage)
    ensures
        m@ == (GameMessageView {
            message_type: MessageType::Disconnect,
            sender: player_name@,
            content: ContentView::Disconnect { reason: reason@ },
        }),
{
    GameMessage {
        message_type: MessageType::Disconnect,
        sender: player_name.to_owned(),
        content: MessageContent::Disconnect { reason: reason.to_owned() },
    }
}

/// The message by which a client says that it is ready to play: a
/// `PlayerAction` whose action is marked ready, with sequence number 0.
pub fn send_ready_msg(player_name: &str) -> (m: GameMessage)
    ensures
        m@ == (GameMessageView {
            message_type: MessageType::PlayerAction,
            sender: player_name@,
            content: ContentView::PlayerAction { ready: true, sequence_number: 0 },
        }),
{
    GameMessage {
        message_type: MessageType::PlayerAction,
        sender: player_name.to_owned(),
        content: MessageContent::PlayerAction { ready: true, sequence_number: 0 },
    }
}

/// The message by which a client joins: a `NewConnection` that carries the
/// player's own name as sender and as content.
pub fn send_new_connection(player_name: &str) -> (m: GameMessage)
    ensures
        m@ == (GameMessageView {
            message_type: MessageType::NewConnection,
            sender: player_name@,
            content: ContentView::NewConnection { name: player_name@ },
        }),
{
    GameMessage {
        message_type: MessageType::NewConnection,
        sender: player_name.to_owned(),
        content: MessageContent::NewConnection { name: player_name.to_owned() },
    }
}

} // verus!
