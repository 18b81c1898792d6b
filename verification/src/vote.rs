//! A vote proposal: one attempt to admit one candidate.

pub mod contract;
pub mod laws;
pub mod state;
