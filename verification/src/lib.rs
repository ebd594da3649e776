//! A verified core for the Steam authentication broker.

pub mod args;
pub mod avatar;
pub mod broker;
pub mod bytes;
pub mod command_laws;
pub mod commands;
pub mod conversation_laws;
pub mod error;
pub mod gamedir;
pub mod player_laws;
pub mod protocol;
pub mod response;
pub mod scratch;
pub mod session;
pub mod session_laws;
pub mod session_runs;
pub mod steam;
pub mod text;
pub mod wire_laws;
pub mod word_laws;

pub use error::BrokerError;
