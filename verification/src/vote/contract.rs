//! The operations of a vote proposal.

use vstd::prelude::*;
use crate::error::ContractError;
use crate::msgs::admin::ExecuteMsg as AdminExecuteMsg;
use crate::msgs::vote::{ExecuteMsg, InstantiateMsg, ProposedAdminResp, QueryMsg, VotesLeftResp};
use crate::types::{Env, MessageInfo, Timestamp};
use crate::vote::state::{VoteProposal, VoteProposalView};

verus! {

/// What the host is to do after a ballot was accepted.
#[derive(Debug, PartialEq, Eq)]
pub enum Response {
    /// The caller had voted before; the ballot is not counted again.
    AlreadyVoted,
    /// The ballot is counted, and votes are still needed.
    Accepted,
    /// The ballot is counted and has reached the quorum: send `msg` to the
    /// registry `contract_addr`, in the name of this proposal.
    Finalize { contract_addr: String, msg: AdminExecuteMsg },
    /// The ballot is counted, but the quorum had been reached before:
    /// nothing is to be sent.
    Surplus,
}

/// Creates the proposal: `msg.proposed_admin` is the candidate, the caller
/// the owning registry, the time of this operation the limit for the voters'
/// admission, and `msg.required_votes` the votes that are needed.
pub fn instantiate(env: &Env, info: &MessageInfo, msg: InstantiateMsg) -> (proposal: VoteProposal)
    requires
        msg.required_votes.atomics >= 0,
    ensures
        proposal@ == (VoteProposalView {
            proposed_admin: msg.proposed_admin@,
            votes_left: msg.required_votes.atomics as int,
            created_at: env.time,
            owner: info.sender@,
            ballots: Seq::empty(),
        }),
        proposal@.required_votes() == msg.required_votes.atomics,
        proposal@.wf(),
{
    VoteProposal::new(msg.proposed_admin, msg.required_votes, env.time, info.sender.clone())
}

/// Whether someone whom the owning registry admitted at `joined`, or who is
/// no admin of it where `joined` is `None`, may vote on a proposal created at
/// `created_at`: only an admin who was admitted no later than that.
pub open spec fn eligibility(created_at: Timestamp, joined: Option<Timestamp>) -> Result<
    (),
    ContractError,
> {
    match joined {
        None => Err(ContractError::NotAnAdmin),
        Some(admitted) => if admitted.is_after(created_at) {
            Err(ContractError::IneligibleVoter)
        } else {
            Ok(())
        },
    }
}

/// Tests the voter's right to vote against what the owning registry says of
/// the voter: `admin_start_time` is the voter's time of admission, or `None`
/// for one who is no admin.
pub fn validate_admin_prove_to_vote(state: &VoteProposal, admin_start_time: Option<Timestamp>) -> (r:
    Result<(), ContractError>)
    ensures
        r == eligibility(state@.created_at, admin_start_time),
{
    let admin_start_time = match admin_start_time {
        Some(v) => v,
        None => {
            return Err(ContractError::NotAnAdmin);
        },
    };
    let vote_start_time = state.start_time();
    if admin_start_time.nanos() > vote_start_time.nanos() {
        return Err(ContractError::IneligibleVoter);
    }
    Ok(())
}

/// Why `accept` refuses the ballot of `voter`, if it does.
pub open spec fn accept_refusal(
    before: VoteProposalView,
    voter: Seq<char>,
    joined: Option<Timestamp>,
) -> Option<ContractError> {
    if before.has_voted(voter) {
        None
    } else {
        match eligibility(before.created_at, joined) {
            Ok(_) => None,
            Err(e) => Some(e),
        }
    }
}

/// Whether `accept` counts the ballot of `voter`.
pub open spec fn accept_counts(
    before: VoteProposalView,
    voter: Seq<char>,
    joined: Option<Timestamp>,
) -> bool {
    !before.has_voted(voter) && eligibility(before.created_at, joined) is Ok
}

/// The proposal after `accept` for `voter`.
pub open spec fn accept_state(
    before: VoteProposalView,
    voter: Seq<char>,
    joined: Option<Timestamp>,
) -> VoteProposalView {
    if accept_counts(before, voter, joined) {
        before.with_ballot(voter)
    } else {
        before
    }
}

/// Whether `accept` for `voter` finalizes the vote: the ballot is counted
/// and takes the votes still needed from above zero to zero or below.
pub open spec fn accept_finalizes(
    before: VoteProposalView,
    voter: Seq<char>,
    joined: Option<Timestamp>,
) -> bool {
    &&& accept_counts(before, voter, joined)
    &&& before.is_open()
    &&& before.with_ballot(voter).is_closed()
}

/// What `accept` owes: `before` and `after` are the proposal before and after
/// the call.
pub open spec fn accept_post(
    before: VoteProposalView,
    voter: Seq<char>,
    joined: Option<Timestamp>,
    after: VoteProposalView,
    r: Result<Response, ContractError>,
) -> bool {
    &&& after == accept_state(before, voter, joined)
    &&& match accept_refusal(before, voter, joined) {
        Some(e) => r == Err::<Response, ContractError>(e),
        None => if before.has_voted(voter) {
            r == Ok::<Response, ContractError>(Response::AlreadyVoted)
        } else if before.is_closed() {
            r == Ok::<Response, ContractError>(Response::Surplus)
        } else if accept_finalizes(before, voter, joined) {
            &&& r matches Ok(Response::Finalize { contract_addr, msg })
            &&& contract_addr@ == before.owner
            &&& msg == (AdminExecuteMsg::AddMember {  })
        } else {
            r == Ok::<Response, ContractError>(Response::Accepted)
        },
    }
}

/// Casts the caller's ballot. `admin_start_time` is what the owning registry
/// answers when asked for the caller's time of admission; it is not looked
/// at for a caller who has voted before.
///
/// A caller who has voted before changes nothing and is told so. Otherwise
/// the caller must be an admin of the owning registry, admitted no later than
/// the proposal was created. The ballot is then noted and takes exactly one
/// whole vote from the votes still needed, also after the quorum was
/// reached. The one ballot that brings them from above zero to zero or below
/// finalizes the vote: the answer tells the host to have the registry admit
/// the candidate. No later ballot does so again.
pub fn accept(state: &mut VoteProposal, info: &MessageInfo, admin_start_time: Option<Timestamp>) -> (r:
    Result<Response, ContractError>)
    ensures
        accept_post(old(state)@, info.sender@, admin_start_time, final(state)@, r),
        final(state)@.wf(),
{
    proof {
        use_type_invariant(&*state);
    }
    if state.has_voted(&info.sender) {
        return Ok(Response::AlreadyVoted);
    }
    match validate_admin_prove_to_vote(state, admin_start_time) {
        Ok(_) => {},
        Err(e) => {
            return Err(e);
        },
    }
    let was_open = state.votes_left().is_positive();
    state.cast(info.sender.clone());
    if !was_open {
        return Ok(Response::Surplus);
    }
    if state.votes_left().is_positive() {
        return Ok(Response::Accepted);
    }
    Ok(
        Response::Finalize {
            contract_addr: state.owner().clone(),
            msg: AdminExecuteMsg::AddMember {  },
        },
    )
}

/// The votes still needed.
pub fn votes_left(state: &VoteProposal) -> (resp: VotesLeftResp)
    ensures
        resp.votes_left.atomics == state@.votes_left,
{
    VotesLeftResp { votes_left: state.votes_left() }
}

/// The candidate.
pub fn proposed_admin(state: &VoteProposal) -> (resp: ProposedAdminResp)
    ensures
        resp.proposed_admin@ == state@.proposed_admin,
{
    ProposedAdminResp { proposed_admin: state.proposed_admin().clone() }
}

/// The answer to a query, by its kind.
#[derive(Debug, PartialEq, Eq)]
pub enum QueryResponse {
    VotesLeft(VotesLeftResp),
    ProposedAdmin(ProposedAdminResp),
}

/// Answers `msg` from the proposal, which does not change.
pub fn query(state: &VoteProposal, _env: &Env, msg: QueryMsg) -> (r: QueryResponse)
    ensures
        match msg {
            QueryMsg::VotesLeft {  } => r matches QueryResponse::VotesLeft(resp)
                && resp.votes_left.atomics == state@.votes_left,
            QueryMsg::ProposedAdmin {  } => r matches QueryResponse::ProposedAdmin(resp)
                && resp.proposed_admin@ == state@.proposed_admin,
        },
{
    match msg {
        QueryMsg::VotesLeft {  } => QueryResponse::VotesLeft(votes_left(state)),
        QueryMsg::ProposedAdmin {  } => QueryResponse::ProposedAdmin(proposed_admin(state)),
    }
}

/// Carries out `msg` on the proposal for the caller that `info` names; there
/// is one kind of message, with the contract of `accept`.
pub fn execute(
    state: &mut VoteProposal,
    _env: &Env,
    info: &MessageInfo,
    msg: ExecuteMsg,
    admin_start_time: Option<Timestamp>,
) -> (r: Result<Response, ContractError>)
    ensures
        accept_post(old(state)@, info.sender@, admin_start_time, final(state)@, r),
        final(state)@.wf(),
{
    match msg {
        ExecuteMsg::Accept {  } => accept(state, info, admin_start_time),
    }
}

} // verus!
