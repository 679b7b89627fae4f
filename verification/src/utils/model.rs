use vstd::prelude::*;

verus! {

/// Kind of a message in the reduced protocol, which has no waiting room.
#[derive(PartialEq, Eq, Structural, Clone, Copy, Debug)]
pub enum MessageType {
    NewConnection,
    GameUpdate,
    PlayerAction,
    ServerInfo,
    Disconnect,
}

} // verus!
