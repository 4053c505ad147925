//! Settings, saved results and typing-session rules of a terminal typing test.

pub mod config;
pub mod text;
pub mod results;
pub mod menu;
pub mod stats;
pub mod session;
pub mod layout;
pub mod cli;
