//! Stories: the worlds that the engine plays.

pub mod loader;
