//! Verified core of a world synchronisation service for a game server:
//! directory diffing, save bookkeeping, sessions, the host life-cycle,
//! and the small parsers and formatters the client and server share.

pub mod text;
mod keyed;
pub mod userdb;
pub mod peer;
pub mod world;
pub mod rpc;
pub mod paths;
pub mod localjava;
pub mod download;
pub mod admin;
pub mod client;
pub mod sync;
pub mod protocol;
pub mod host;
pub mod sessions;
pub mod transfer;
pub mod mc;
pub mod logging;
