//! The library of notes that a model can search.

pub mod dashboard;
pub mod search;
