//! Game rules, message routing and server bookkeeping of a small multiplayer
//! maze shooter, with their contracts.

pub mod client;
pub mod common;
pub mod graphics;
pub mod maze;
pub mod server;
pub mod utils;
