//! Quorum-governed admin membership.
//!
//! An admin registry grows only through votes: any caller may propose a
//! candidate, which opens a vote proposal; admins who had joined by the time
//! the proposal was created accept it one ballot each; the ballot that brings
//! the votes still needed to zero or below tells the registry, once, to admit
//! the candidate. The registry keeps its admins in ascending order of their
//! identities and splits donations evenly among them.
//!
//! Both components are plain values with verified transitions. The host that
//! embeds them stores the values, validates identities, carries messages
//! between the two and performs the transfers.

pub mod admin;
pub mod decimal;
pub mod error;
pub mod msgs;
pub mod order;
pub mod payment;
pub mod reply;
pub mod types;
pub mod vote;
