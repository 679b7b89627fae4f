//! The server side: spawn points, message handling and broadcasting.

pub mod handlers;
pub mod udp;
