//! The game statistics service: what it asks of the statistics site, and what it tells.

pub mod battle;
pub mod cache;
pub mod error;
pub mod fetch;
pub mod knowledge;
pub mod meta;
pub mod player;
pub mod rpc;
pub mod screenshot;
pub mod share;
pub mod stats;
pub mod summary;
pub mod tools;
