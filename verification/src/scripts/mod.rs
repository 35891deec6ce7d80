//! Scripts that a model may call as tools.

pub mod header;
pub mod refresh;
pub mod run;
