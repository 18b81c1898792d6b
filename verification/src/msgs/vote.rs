//! Messages of a vote proposal.

use vstd::prelude::*;
use crate::decimal::Decimal;

verus! {

#[derive(Debug, PartialEq, Eq)]
pub struct InstantiateMsg {
    /// The votes that admit the candidate: the registry's quorum fraction of
    /// its admin count when the proposal was made.
    pub required_votes: Decimal,
    pub proposed_admin: String,
    pub admin_code_id: u64,
}

#[derive(Clone, Copy, Debug, PartialEq, Eq, Structural)]
pub enum ExecuteMsg {
    Accept {},
}

#[derive(Clone, Copy, Debug, PartialEq, Eq, Structural)]
pub enum QueryMsg {
    VotesLeft {},
    ProposedAdmin {},
}

#[derive(Clone, Copy, Debug, PartialEq, Eq, Structural)]
pub struct VotesLeftResp {
    pub votes_left: Decimal,
}

#[derive(Debug, PartialEq, Eq)]
pub struct ProposedAdminResp {
    pub proposed_admin: String,
}

} // verus!
