//! The registry's operations.

use vstd::prelude::*;
use vstd::string::StringExecFns;
use crate::admin::state::{entries_view, AdminEntryView, Registry, RegistryView};
use crate::decimal::required_votes;
use crate::error::ContractError;
use crate::order::{ascending, lemma_place_parts, place};
use crate::msgs::admin::{
    AdminsListResp, ExecuteMsg, InstantiateMsg, JoinTimeResp, ProposeAdminResp, QueryMsg,
};
use crate::msgs::vote::InstantiateMsg as VoteInstantiate;
use crate::payment::{must_pay, must_pay_spec, PaymentError};
use crate::reply::{instantiated_address, parse_instantiate_response_data, Reply, SubMsgResponse};
use crate::types::{coins_view, strings_view, Coin, CoinView, Env, MessageInfo, Timestamp};

verus! {

/// The tag on the request that creates a vote proposal.
pub const VOTE_INSTANTIATE_ID: u64 = 1;

/// An order to pay `amount` out of the registry's funds to `to_address`.
#[derive(Debug, PartialEq, Eq)]
pub struct BankSend {
    pub to_address: String,
    pub amount: Coin,
}

/// A transfer as a mathematical value.
pub struct BankSendView {
    pub to_address: Seq<char>,
    pub amount: CoinView,
}

impl View for BankSend {
    type V = BankSendView;

    open spec fn view(&self) -> BankSendView {
        BankSendView { to_address: self.to_address@, amount: self.amount@ }
    }
}

/// The views of a list of transfers, in order.
pub open spec fn transfers_view(transfers: Seq<BankSend>) -> Seq<BankSendView> {
    Seq::new(transfers.len(), |i: int| transfers[i]@)
}

/// What the host is to do after an operation of the registry succeeded.
#[derive(Debug, PartialEq, Eq)]
pub enum Response {
    /// A vote has been finalized for `proposed_admin`; `added` tells whether
    /// that made it an admin, or it was one already.
    AddMember { proposed_admin: String, added: bool },
    /// Create a vote proposal from the template `code_id` with `msg`, and hand
    /// its outcome back under the tag `reply_id`.
    ProposeAdmin { code_id: u64, msg: VoteInstantiate, label: String, reply_id: u64 },
    /// The caller is no admin any more.
    Leave,
    /// Pay out `transfers`: `per_admin` to each admin, of the `amount` donated.
    Donate { amount: u128, per_admin: u128, transfers: Vec<BankSend> },
}

/// The answer to a query, by its kind.
#[derive(Debug, PartialEq, Eq)]
pub enum QueryResponse {
    AdminsList(AdminsListResp),
    JoinTime(JoinTimeResp),
}

/// The distinct identities of `addresses` in ascending order: each in turn
/// is put at its place among those before it, unless it is there already.
pub open spec fn ascending_distinct(addresses: Seq<Seq<char>>) -> Seq<Seq<char>>
    decreases addresses.len(),
{
    if addresses.len() == 0 {
        Seq::empty()
    } else {
        let before = ascending_distinct(addresses.drop_last());
        if before.contains(addresses.last()) {
            before
        } else {
            before.insert(place(before, addresses.last()), addresses.last())
        }
    }
}

/// Admins with these identities, all admitted at `now`.
pub open spec fn admitted_at(addresses: Seq<Seq<char>>, now: Timestamp) -> Seq<AdminEntryView> {
    Seq::new(addresses.len(), |i: int| AdminEntryView { address: addresses[i], joined_at: now })
}

/// Whether the host has found each of the first `count` identities valid.
pub open spec fn all_valid(count: nat, verdicts: Seq<bool>) -> bool {
    forall|i: int| 0 <= i < count ==> i < verdicts.len() && verdicts[i]
}

/// The registry that `msg` describes, created at `now`.
pub open spec fn initial_registry(msg: InstantiateMsg, now: Timestamp) -> RegistryView {
    RegistryView {
        admins: admitted_at(ascending_distinct(strings_view(msg.admins@)), now),
        donation_denom: msg.donation_denom@,
        vote_code_id: msg.vote_code_id,
        quorum: msg.quorum,
        pending_votes: Map::empty(),
    }
}

/// Creates the registry. Identities are validated by the host, which hands
/// its verdicts in `admins_valid`: one for each identity of `msg.admins`, in
/// order, a missing one counting as a refusal. If every identity is valid,
/// each becomes an admin with the time of this operation as its time of
/// admission, a repeated one once, and the admins stand in ascending order of
/// their identities; otherwise nothing is created.
pub fn instantiate(env: &Env, _info: &MessageInfo, msg: InstantiateMsg, admins_valid: &Vec<bool>) -> (r:
    Result<Registry, ContractError>)
    requires
        msg.quorum.is_quorum(),
    ensures
        match r {
            Ok(registry) => {
                &&& all_valid(msg.admins@.len(), admins_valid@)
                &&& registry@ == initial_registry(msg, env.time)
                &&& registry@.wf()
            },
            Err(e) => e == ContractError::InvalidIdentity && !all_valid(
                msg.admins@.len(),
                admins_valid@,
            ),
        },
{
    let ghost addresses = strings_view(msg.admins@);
    let mut registry = Registry::new(msg.donation_denom.clone(), msg.vote_code_id, msg.quorum);
    let mut i: usize = 0;
    assert(registry@.admins =~= admitted_at(ascending_distinct(addresses.take(0)), env.time));
    while i < msg.admins.len()
        invariant
            i <= msg.admins@.len(),
            addresses == strings_view(msg.admins@),
            all_valid(i as nat, admins_valid@),
            registry@.wf(),
            registry@ == (RegistryView {
                admins: admitted_at(ascending_distinct(addresses.take(i as int)), env.time),
                ..initial_registry(msg, env.time)
            }),
        decreases msg.admins@.len() - i,
    {
        if i >= admins_valid.len() || !admins_valid[i] {
            return Err(ContractError::InvalidIdentity);
        }
        let address = msg.admins[i].clone();
        let ghost before = ascending_distinct(addresses.take(i as int));
        proof {
            assert(addresses.take(i + 1).drop_last() =~= addresses.take(i as int));
            assert(addresses.take(i + 1).last() == address@);
            assert(registry@.addresses() =~= before);
        }
        if !registry.is_admin(&address) {
            proof {
                lemma_place_parts(before, address@);
            }
            registry.add_admin(address, env.time);
            assert(registry@.admins =~= admitted_at(
                before.insert(place(before, address@), address@),
                env.time,
            ));
        }
        i += 1;
    }
    assert(addresses.take(i as int) =~= addresses);
    Ok(registry)
}

/// Answers `msg` from the registry, which does not change.
pub fn query(state: &Registry, _env: &Env, msg: QueryMsg) -> (r: Result<QueryResponse, ContractError>)
    ensures
        match msg {
            QueryMsg::AdminsList {  } => {
                &&& r matches Ok(QueryResponse::AdminsList(resp))
                &&& strings_view(resp.admins@) == state@.addresses()
                &&& ascending(strings_view(resp.admins@))
            },
            QueryMsg::JoinTime { admin } => r == match state@.joined_at(admin@) {
                Some(joined) => Ok::<QueryResponse, ContractError>(
                    QueryResponse::JoinTime(JoinTimeResp { joined }),
                ),
                None => Err::<QueryResponse, ContractError>(ContractError::NotFound),
            },
        },
{
    match msg {
        QueryMsg::AdminsList {  } => Ok(QueryResponse::AdminsList(admins_list(state))),
        QueryMsg::JoinTime { admin } => match join_time(state, admin) {
            Ok(resp) => Ok(QueryResponse::JoinTime(resp)),
            Err(e) => Err(e),
        },
    }
}

/// Carries out `msg` on the registry for the caller that `info` names, at the
/// time that `env` gives. Each kind of message has the contract of the
/// operation that it names.
pub fn execute(state: &mut Registry, env: &Env, info: &MessageInfo, msg: ExecuteMsg) -> (r: Result<
    Response,
    ContractError,
>)
    ensures
        final(state)@.wf(),
        match msg {
            ExecuteMsg::AddMember {  } => add_member_post(
                old(state)@,
                env.time,
                info.sender@,
                final(state)@,
                r,
            ),
            ExecuteMsg::ProposeAdmin { addr, admin_code_id } => {
                &&& r matches Ok(response)
                &&& propose_admin_post(old(state)@, info.sender@, addr@, admin_code_id, response)
                &&& final(state)@ == old(state)@
            },
            ExecuteMsg::Leave {  } => {
                &&& r == Ok::<Response, ContractError>(Response::Leave)
                &&& final(state)@ == old(state)@.without(info.sender@)
            },
            ExecuteMsg::Donate {  } => {
                &&& donate_post(old(state)@, coins_view(info.funds@), r)
                &&& final(state)@ == old(state)@
            },
        },
{
    proof {
        use_type_invariant(&*state);
    }
    match msg {
        ExecuteMsg::AddMember {  } => add_member(state, env, info),
        ExecuteMsg::ProposeAdmin { addr, admin_code_id } => Ok(
            propose_admin(state, info, addr, admin_code_id),
        ),
        ExecuteMsg::Leave {  } => Ok(leave(state, info)),
        ExecuteMsg::Donate {  } => donate(state, info),
    }
}

/// The registry after `add_member` was called by `sender` at `now`: the
/// candidate that was noted for `sender` is admitted, unless nothing was
/// noted or the candidate is an admin already.
pub open spec fn add_member_state(before: RegistryView, now: Timestamp, sender: Seq<char>) -> RegistryView {
    if before.pending_votes.contains_key(sender) && !before.is_admin(before.pending_votes[sender]) {
        before.with_admin(before.pending_votes[sender], now)
    } else {
        before
    }
}

/// What `add_member` owes: `before` and `after` are the registry before and
/// after the call.
pub open spec fn add_member_post(
    before: RegistryView,
    now: Timestamp,
    sender: Seq<char>,
    after: RegistryView,
    r: Result<Response, ContractError>,
) -> bool {
    &&& after == add_member_state(before, now, sender)
    &&& if before.pending_votes.contains_key(sender) {
        &&& r matches Ok(Response::AddMember { proposed_admin, added })
        &&& proposed_admin@ == before.pending_votes[sender]
        &&& added == !before.is_admin(before.pending_votes[sender])
    } else {
        r == Err::<Response, ContractError>(ContractError::UnknownCaller)
    }
}

/// Admits the candidate of the vote proposal that calls. The caller must be a
/// vote proposal that this registry has created: its identity is the key
/// under which the candidate was noted. A candidate who is an admin already
/// stays as it is, with its time of admission; another becomes an admin at
/// the place of its identity among the others, admitted at the time of this
/// operation. The record of the vote stays, so that a repeated call is
/// answered in the same way.
pub fn add_member(state: &mut Registry, env: &Env, info: &MessageInfo) -> (r: Result<
    Response,
    ContractError,
>)
    ensures
        add_member_post(old(state)@, env.time, info.sender@, final(state)@, r),
        final(state)@.wf(),
{
    proof {
        use_type_invariant(&*state);
    }
    let proposed_admin = match state.pending_candidate(&info.sender) {
        Some(candidate) => candidate,
        None => {
            return Err(ContractError::UnknownCaller);
        },
    };
    if state.is_admin(&proposed_admin) {
        return Ok(Response::AddMember { proposed_admin, added: false });
    }
    state.add_admin(proposed_admin.clone(), env.time);
    Ok(Response::AddMember { proposed_admin, added: true })
}

/// What `propose_admin` owes on a registry `v`.
pub open spec fn propose_admin_post(
    v: RegistryView,
    sender: Seq<char>,
    addr: Seq<char>,
    admin_code_id: u64,
    r: Response,
) -> bool {
    &&& r matches Response::ProposeAdmin { code_id, msg, label, reply_id }
    &&& code_id == v.vote_code_id
    &&& msg.required_votes.atomics == v.quorum.atomics * v.admins.len()
    &&& msg.proposed_admin@ == addr
    &&& msg.admin_code_id == admin_code_id
    &&& label@ == "admin-"@ + sender
    &&& reply_id == VOTE_INSTANTIATE_ID
}

/// Asks for a vote on admitting `addr`. Anyone may propose: the vote is the
/// gate. The votes required are the quorum fraction of the present number of
/// admins, which need not be a whole number. The registry does not change;
/// the host creates the vote proposal and hands the outcome to `reply`.
pub fn propose_admin(state: &Registry, info: &MessageInfo, addr: String, admin_code_id: u64) -> (r:
    Response)
    ensures
        propose_admin_post(state@, info.sender@, addr@, admin_code_id, r),
{
    let msg = VoteInstantiate {
        required_votes: required_votes(state.quorum(), state.admin_count()),
        proposed_admin: addr,
        admin_code_id,
    };
    let mut label = "admin-".to_owned();
    label.append(info.sender.as_str());
    Response::ProposeAdmin { code_id: state.vote_code_id(), msg, label, reply_id: VOTE_INSTANTIATE_ID }
}

/// Takes the caller from the admins. A caller who is no admin changes
/// nothing; the operation succeeds either way.
pub fn leave(state: &mut Registry, info: &MessageInfo) -> (r: Response)
    ensures
        r == Response::Leave,
        final(state)@ == old(state)@.without(info.sender@),
        final(state)@.wf(),
{
    state.remove_admin(&info.sender);
    Response::Leave
}

/// The refusal that stands for each payment error.
pub open spec fn payment_refusal(e: PaymentError) -> ContractError {
    match e {
        PaymentError::NoFunds => ContractError::NoFunds,
        PaymentError::MultipleDenoms => ContractError::MultipleDenoms,
        PaymentError::MissingDenom => ContractError::WrongDenom,
        PaymentError::ExtraDenom => ContractError::WrongDenom,
        PaymentError::NonPayable => ContractError::WrongDenom,
    }
}

fn refusal(e: PaymentError) -> (r: ContractError)
    ensures
        r == payment_refusal(e),
{
    match e {
        PaymentError::NoFunds => ContractError::NoFunds,
        PaymentError::MultipleDenoms => ContractError::MultipleDenoms,
        PaymentError::MissingDenom => ContractError::WrongDenom,
        PaymentError::ExtraDenom => ContractError::WrongDenom,
        PaymentError::NonPayable => ContractError::WrongDenom,
    }
}

/// The transfers that split `amount` evenly among `admins`: each admin, in the
/// order of `admins`, which for a registry is the ascending order of their
/// identities, gets the whole quotient; the remainder is not paid out.
pub open spec fn even_split(admins: Seq<AdminEntryView>, amount: u128, denom: Seq<char>) -> Seq<BankSendView>
    recommends
        admins.len() > 0,
{
    Seq::new(
        admins.len(),
        |i: int|
            BankSendView {
                to_address: admins[i].address,
                amount: CoinView { denom, amount: (amount as int / admins.len() as int) as u128 },
            },
    )
}

/// What `donate` owes on a registry `v` and the funds `funds`. The transfers
/// follow the admins of `v`, which stand in ascending order of identity.
pub open spec fn donate_post(v: RegistryView, funds: Seq<CoinView>, r: Result<Response, ContractError>) -> bool {
    match must_pay_spec(funds, v.donation_denom) {
        Err(e) => r == Err::<Response, ContractError>(payment_refusal(e)),
        Ok(donation) => if v.admins.len() == 0 {
            r == Err::<Response, ContractError>(ContractError::NoAdmins)
        } else {
            &&& r matches Ok(Response::Donate { amount, per_admin, transfers })
            &&& amount == donation
            &&& per_admin == donation as int / v.admins.len() as int
            &&& transfers_view(transfers@) == even_split(v.admins, donation, v.donation_denom)
        },
    }
}

/// Splits a donation evenly among the admins. The funds must be one coin of
/// the registry's denomination and not of amount zero. Each admin, in
/// ascending order of identity, gets the amount divided by the number of
/// admins, rounded down; what is left over stays with the registry. The
/// registry does not change.
pub fn donate(state: &Registry, info: &MessageInfo) -> (r: Result<Response, ContractError>)
    ensures
        donate_post(state@, coins_view(info.funds@), r),
        ascending(state@.addresses()),
{
    proof {
        use_type_invariant(state);
    }
    let donation: u128 = match must_pay(info, state.donation_denom()) {
        Ok(amount) => amount,
        Err(e) => {
            return Err(refusal(e));
        },
    };
    let admins = state.admins();
    let count: usize = admins.len();
    if count == 0 {
        return Err(ContractError::NoAdmins);
    }
    let donation_per_admin: u128 = donation / (count as u128);
    let mut messages: Vec<BankSend> = Vec::new();
    let mut i: usize = 0;
    while i < count
        invariant
            count == admins@.len(),
            count > 0,
            i <= count,
            donation_per_admin == donation as int / count as int,
            entries_view(admins@) == state@.admins,
            messages@.len() == i,
            forall|j: int|
                0 <= j < i ==> (#[trigger] messages@[j])@ == even_split(
                    state@.admins,
                    donation,
                    state@.donation_denom,
                )[j],
        decreases count - i,
    {
        let ghost sent = messages@;
        messages.push(
            BankSend {
                to_address: admins[i].address.clone(),
                amount: Coin { denom: state.donation_denom().clone(), amount: donation_per_admin },
            },
        );
        assert(forall|j: int| 0 <= j < i ==> messages@[j] == sent[j]);
        assert(state@.admins[i as int] == admins@[i as int]@);
        i += 1;
    }
    assert(transfers_view(messages@) =~= even_split(state@.admins, donation, state@.donation_denom));
    Ok(Response::Donate { amount: donation, per_admin: donation_per_admin, transfers: messages })
}

/// Hands the outcome of a request to the continuation that its tag names. The
/// registry sends one kind of request, to create a vote proposal; an outcome
/// under another tag is refused.
pub fn reply(msg: Reply) -> (r: Result<ProposeAdminResp, ContractError>)
    ensures
        if msg.id == VOTE_INSTANTIATE_ID {
            vote_instantiate_reply_post(msg.result, r)
        } else {
            r == Err::<ProposeAdminResp, ContractError>(ContractError::UnknownReplyId)
        },
{
    if msg.id == VOTE_INSTANTIATE_ID {
        vote_instantiate_reply(msg.result)
    } else {
        Err(ContractError::UnknownReplyId)
    }
}

/// What `vote_instantiate_reply` owes on the outcome `msg`.
pub open spec fn vote_instantiate_reply_post(
    msg: Result<SubMsgResponse, String>,
    r: Result<ProposeAdminResp, ContractError>,
) -> bool {
    match msg {
        Err(_) => r == Err::<ProposeAdminResp, ContractError>(ContractError::RemoteCallFailed),
        Ok(response) => match response.data {
            None => r == Err::<ProposeAdminResp, ContractError>(ContractError::NoReplyData),
            Some(data) => instantiated_vote_post(instantiated_address(data@, usize::BITS), r),
        },
    }
}

/// Takes the outcome of the request to create a vote proposal and yields the
/// new proposal's identity. A failed request, one without a payload and one
/// whose payload does not decode are refused. The registry is not involved:
/// the host next asks the new proposal for its candidate and has the registry
/// note the two with `Registry::record_pending`.
pub fn vote_instantiate_reply(msg: Result<SubMsgResponse, String>) -> (r: Result<
    ProposeAdminResp,
    ContractError,
>)
    ensures
        vote_instantiate_reply_post(msg, r),
{
    let response = match msg {
        Ok(response) => response,
        Err(_) => {
            return Err(ContractError::RemoteCallFailed);
        },
    };
    let data = match response.data {
        Some(data) => data,
        None => {
            return Err(ContractError::NoReplyData);
        },
    };
    instantiated_vote(parse_instantiate_response_data(&data))
}

/// What is owed for the decoded payload `parsed` of a creation request.
pub open spec fn instantiated_vote_post(parsed: Option<Seq<char>>, r: Result<ProposeAdminResp, ContractError>) -> bool {
    match parsed {
        None => r == Err::<ProposeAdminResp, ContractError>(ContractError::InvalidReply),
        Some(address) => r matches Ok(resp) && resp.vote_addr@ == address,
    }
}

/// The answer to a creation request whose payload decoded to `parsed`: the
/// new vote proposal's identity, or a refusal where the payload did not
/// decode.
pub fn instantiated_vote(parsed: Option<String>) -> (r: Result<ProposeAdminResp, ContractError>)
    ensures
        instantiated_vote_post(
            match parsed {
                Some(address) => Some(address@),
                None => None,
            },
            r,
        ),
{
    match parsed {
        Some(vote_addr) => Ok(ProposeAdminResp { vote_addr }),
        None => Err(ContractError::InvalidReply),
    }
}

/// The admins' identities in strictly ascending order.
pub fn admins_list(state: &Registry) -> (resp: AdminsListResp)
    ensures
        strings_view(resp.admins@) == state@.addresses(),
        ascending(strings_view(resp.admins@)),
{
    let entries = state.admins();
    let mut admins: Vec<String> = Vec::new();
    let mut i: usize = 0;
    while i < entries.len()
        invariant
            i <= entries@.len(),
            entries_view(entries@) == state@.admins,
            admins@.len() == i,
            forall|j: int| 0 <= j < i ==> (#[trigger] admins@[j])@ == state@.admins[j].address,
        decreases entries@.len() - i,
    {
        let ghost listed = admins@;
        admins.push(entries[i].address.clone());
        assert(forall|j: int| 0 <= j < i ==> admins@[j] == listed[j]);
        assert(state@.admins[i as int] == entries@[i as int]@);
        i += 1;
    }
    assert(strings_view(admins@) =~= state@.addresses());
    AdminsListResp { admins }
}

/// When `addr` was admitted.
pub fn join_time(state: &Registry, addr: String) -> (r: Result<JoinTimeResp, ContractError>)
    ensures
        r == match state@.joined_at(addr@) {
            Some(joined) => Ok::<JoinTimeResp, ContractError>(JoinTimeResp { joined }),
            None => Err::<JoinTimeResp, ContractError>(ContractError::NotFound),
        },
{
    match state.joined_at(&addr) {
        Some(joined) => Ok(JoinTimeResp { joined }),
        None => Err(ContractError::NotFound),
    }
}

} // verus!
