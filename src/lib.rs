//! A multi-user chat server's core: the registry of connected clients, the
//! routing of chat lines and presence notices, and the slash-command
//! dispatcher. Every operation returns the deliveries it produces, so the
//! transport around it writes them after releasing the registry.

pub mod client;
pub mod registry;
pub mod command;
pub mod text;
pub mod session;
pub mod types;
pub mod laws;
pub mod roster;
