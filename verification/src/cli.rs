//! What the command-line front end computes before it touches a file.

pub mod create;
