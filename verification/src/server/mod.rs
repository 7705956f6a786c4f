//! The decisions of the completion server.
pub mod auth;
pub mod catalog;
pub mod chat;
pub mod clock;
pub mod flow;
pub mod generation;
pub mod hotswap;
pub mod ids;
pub mod prompt;
pub mod reply;
pub mod settings;
pub mod stop;
pub mod stream;
pub mod turns;
