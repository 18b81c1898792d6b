//! Messages of the admin registry.

use vstd::prelude::*;
use crate::decimal::Decimal;
use crate::types::Timestamp;

verus! {

#[derive(Debug, PartialEq, Eq)]
pub struct InstantiateMsg {
    /// The first admins, as the caller wrote them.
    pub admins: Vec<String>,
    /// The one denomination in which donations are taken.
    pub donation_denom: String,
    /// The template from which vote proposals are created.
    pub vote_code_id: u64,
    /// The fraction of the admins whose votes admit a candidate.
    pub quorum: Decimal,
}

#[derive(Debug, PartialEq, Eq)]
pub enum ExecuteMsg {
    /// Sent by a vote proposal that has reached its quorum.
    AddMember {},
    ProposeAdmin { addr: String, admin_code_id: u64 },
    Leave {},
    Donate {},
}

#[derive(Debug, PartialEq, Eq)]
pub enum QueryMsg {
    AdminsList {},
    JoinTime { admin: String },
}

#[derive(Clone, Copy, Debug, PartialEq, Eq, Structural)]
pub struct JoinTimeResp {
    pub joined: Timestamp,
}

#[derive(Debug, PartialEq, Eq)]
pub struct AdminsListResp {
    pub admins: Vec<String>,
}

/// The identity of the vote proposal that a proposal has created.
#[derive(Debug, PartialEq, Eq)]
pub struct ProposeAdminResp {
    pub vote_addr: String,
}

} // verus!
