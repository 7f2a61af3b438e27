//! Core of a multi-room chat system: the signed-session token codec, the
//! session guard with its revocation store, the broadcast hub that fans
//! room-change events out to per-room streams, and the client-side state
//! machine that manages room subscriptions and their background tasks.
pub mod authentication;
pub mod b64;
pub mod base;
pub mod bytesutil;
pub mod catchers;
pub mod chat_room_client;
pub mod clock;
pub mod events;
pub mod hub;
pub mod ids;
pub mod json;
pub mod message;
pub mod models;
pub mod jwt;
pub mod revocation;
pub mod rooms;
pub mod state;
pub mod state_machine;
pub mod stream;
pub mod strings;
