//! The decisions of Nonoka, an assistant in the terminal and in chats: what it asks of models,
//! hosts and services, how it reads what they answer, and what it says of it.
//!
//! Nothing here reads a file, a socket or the clock. What comes from there is an argument, and
//! what is to go there is a result.

pub mod alphabet;
pub mod aoe4;
pub mod claude_code;
pub mod dsh;
pub mod embedding;
pub mod encoding;
pub mod json;
pub mod kb;
pub mod number;
pub mod order;
pub mod path;
pub mod provider;
pub mod provider_config;
pub mod registry;
pub mod report;
pub mod scripts;
pub mod tally;
pub mod text;
pub mod textmap;
pub mod trigger;
pub mod vision;
pub mod voice;
pub mod web;
