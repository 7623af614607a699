//! Session core of a small multiplayer game: the movement model, the
//! per-server player registry, the session state machine, the directory of
//! advertised servers and the liveness client that keeps an entry fresh.

pub mod auth;
pub mod client;
pub mod config;
pub mod directory;
pub mod error;
pub mod liveness;
pub mod models;
pub mod movement;
pub mod protocol;
pub mod registry;
pub mod server;
pub mod timer;
