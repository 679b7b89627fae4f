//! Decisions of the menu and of the waiting room.

pub mod button;
pub mod menu;
pub mod waitting_page;
