//! Items shared by the server and the client.

pub mod constant;
pub mod protocol;
pub mod sync;
