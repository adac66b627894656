//! Lobby server core for a social-deduction party game: rooms addressed by a
//! short code, a registry of live connections, and the dispatcher that turns
//! each client action into state changes and outgoing messages.

pub mod broadcast;
pub mod protocol;
pub mod room_manager;
pub mod session;
pub mod state;
pub mod types;
