//! Having pictures and videos looked at.

pub mod analyses;
pub mod batch;
pub mod media;
pub mod message;
pub mod request;
pub mod route;
pub mod scope;
