//! The world model, the command parser and the session that runs on them.

pub mod game;
pub mod inventory;
pub mod item;
pub mod lemmas;
pub mod room;
pub mod parser;
