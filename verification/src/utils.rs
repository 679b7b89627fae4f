//! Helpers: decimal text, logging lines, the server address and the console menu.

pub mod decimal;
pub mod logger;
pub mod model;
pub mod server_utils;
pub mod utils;
