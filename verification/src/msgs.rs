//! The messages that the two components take and answer with.

pub mod admin;
pub mod vote;
