//! The admin registry: who the admins are, since when, and which vote
//! proposals it is waiting for.

pub mod contract;
pub mod laws;
pub mod state;
