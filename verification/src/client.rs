//! The client side: the connected-player registry and the connection loop.

pub mod handlers;
pub mod player;
pub mod udp;
