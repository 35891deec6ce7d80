//! Talking to a DSH host, which runs agents: requests go over HTTP, what happens in a turn comes
//! over a WebSocket.

pub mod client;
pub mod events;
pub mod flow;
pub mod repl;
