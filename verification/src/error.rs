//! Why an operation was refused.

use vstd::prelude::*;

verus! {

/// Every refusal leaves the component as it was.
#[derive(Clone, Copy, Debug, PartialEq, Eq, Structural)]
pub enum ContractError {
    /// The host could not validate an identity.
    InvalidIdentity,
    /// No vote proposal of this registry is known under the caller's identity.
    UnknownCaller,
    /// The funds are of another denomination than the registry's.
    WrongDenom,
    /// No funds came with a donation, or an amount of zero.
    NoFunds,
    /// Funds of more than one denomination came with a donation.
    MultipleDenoms,
    /// There is no admin to share a donation.
    NoAdmins,
    /// The identity is not a current admin.
    NotFound,
    /// The remote operation that this continuation answers has failed.
    RemoteCallFailed,
    /// The remote operation succeeded without the payload it owes.
    NoReplyData,
    /// The payload of the remote operation cannot be decoded.
    InvalidReply,
    /// The continuation belongs to no request of this component.
    UnknownReplyId,
    /// The voter is not an admin of the owning registry.
    NotAnAdmin,
    /// The voter became an admin after the proposal was created.
    IneligibleVoter,
}

impl ContractError {
    /// The text of each refusal.
    pub open spec fn message(self) -> Seq<char> {
        match self {
            ContractError::InvalidIdentity => "Invalid identity."@,
            ContractError::UnknownCaller => "Caller is not a pending vote of this registry."@,
            ContractError::WrongDenom => "Must send the donation denomination."@,
            ContractError::NoFunds => "No funds sent"@,
            ContractError::MultipleDenoms => "Sent more than one denomination"@,
            ContractError::NoAdmins => "No admins to donate to."@,
            ContractError::NotFound => "Admin not found."@,
            ContractError::RemoteCallFailed => "Remote call failed."@,
            ContractError::NoReplyData => "No instantiate response data"@,
            ContractError::InvalidReply => "Invalid reply from sub-message"@,
            ContractError::UnknownReplyId => "unknown reply id"@,
            ContractError::NotAnAdmin => "Non admin accept!."@,
            ContractError::IneligibleVoter =>
                "Admin is not allowed to vote due to being approved after vote is created."@,
        }
    }

    pub fn to_string(&self) -> (text: String)
        ensures
            text@ == self.message(),
    {
        match self {
            ContractError::InvalidIdentity => "Invalid identity.".to_owned(),
            ContractError::UnknownCaller => "Caller is not a pending vote of this registry.".to_owned(),
            ContractError::WrongDenom => "Must send the donation denomination.".to_owned(),
            ContractError::NoFunds => "No funds sent".to_owned(),
            ContractError::MultipleDenoms => "Sent more than one denomination".to_owned(),
            ContractError::NoAdmins => "No admins to donate to.".to_owned(),
            ContractError::NotFound => "Admin not found.".to_owned(),
            ContractError::RemoteCallFailed => "Remote call failed.".to_owned(),
            ContractError::NoReplyData => "No instantiate response data".to_owned(),
            ContractError::InvalidReply => "Invalid reply from sub-message".to_owned(),
            ContractError::UnknownReplyId => "unknown reply id".to_owned(),
            ContractError::NotAnAdmin => "Non admin accept!.".to_owned(),
            ContractError::IneligibleVoter =>
                "Admin is not allowed to vote due to being approved after vote is created.".to_owned(),
        }
    }
}

} // verus!
