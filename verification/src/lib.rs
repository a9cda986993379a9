//! A small interactive-fiction engine: a world of rooms and items, a parser
//! for short player commands, and the session that applies them.

pub mod cli;
pub mod engine;
pub mod story;
pub mod table;
pub mod text;
pub mod ui;
