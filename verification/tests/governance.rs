//! The registry and its vote proposals run together as a host would run
//! them: the host keeps the values, carries the messages and answers the
//! queries between them.

use std::str::FromStr;

use admin_governance::admin::contract as admin;
use admin_governance::admin::contract::VOTE_INSTANTIATE_ID;
use admin_governance::admin::state::Registry;
use admin_governance::decimal::Decimal;
use admin_governance::error::ContractError;
use admin_governance::msgs::admin::{
    AdminsListResp, ExecuteMsg as AdminExecuteMsg, InstantiateMsg as AdminInstantiateMsg,
    ProposeAdminResp, QueryMsg as AdminQueryMsg,
};
use admin_governance::msgs::vote::{
    ExecuteMsg as VoteExecuteMsg, InstantiateMsg as VoteInstantiateMsg, ProposedAdminResp,
    QueryMsg as VoteQueryMsg, VotesLeftResp,
};
use admin_governance::reply::{Reply, SubMsgResponse};
use admin_governance::types::{Coin, Env, MessageInfo, Timestamp};
use admin_governance::vote::contract as vote;
use admin_governance::vote::state::VoteProposal;
use cosmwasm_std::testing::MockApi;
use cosmwasm_std::Api;

/// The decimal that the outside crate reads from `text`.
fn decimal(text: &str) -> Decimal {
    Decimal::raw(cosmwasm_std::Decimal::from_str(text).unwrap().atomics().u128() as i128)
}

fn info(sender: &str, funds: Vec<Coin>) -> MessageInfo {
    MessageInfo { sender: sender.to_owned(), funds }
}

fn coins(amount: u128, denom: &str) -> Vec<Coin> {
    vec![Coin { denom: denom.to_owned(), amount }]
}

/// The response to a creation request as the host encodes it: one field,
/// numbered 1, that holds the new component's identity.
fn instantiate_response(address: &str) -> Vec<u8> {
    let mut data = vec![0x0a, address.len() as u8];
    data.extend_from_slice(address.as_bytes());
    data
}

/// What an operation hands back to the one who sent it.
struct AppResponse {
    data: Option<ProposeAdminResp>,
}

/// A host: the registries and vote proposals that were created on it, each
/// under the identity that the host gave it, the balances, and the clock.
struct App {
    time: Timestamp,
    created: usize,
    labels: Vec<String>,
    registries: Vec<(String, Registry)>,
    votes: Vec<(String, VoteProposal)>,
    balances: Vec<(String, String, u128)>,
}

impl App {
    fn default() -> App {
        App {
            time: Timestamp::from_nanos(1_571_797_419_879_305_533),
            created: 0,
            labels: vec![],
            registries: vec![],
            votes: vec![],
            balances: vec![],
        }
    }

    fn env(&self) -> Env {
        Env { time: self.time }
    }

    /// Five seconds later.
    fn next_block(&mut self) {
        self.time = Timestamp::from_nanos(self.time.nanos() + 5_000_000_000);
    }

    fn next_address(&mut self, label: &str) -> String {
        let address = format!("contract{}", self.created);
        self.created += 1;
        self.labels.push(label.to_owned());
        address
    }

    fn init_balance(&mut self, owner: &str, funds: Vec<Coin>) {
        for coin in funds {
            self.balances.push((owner.to_owned(), coin.denom, coin.amount));
        }
    }

    fn query_balance(&self, owner: &str, denom: &str) -> u128 {
        self.balances
            .iter()
            .filter(|(o, d, _)| o == owner && d == denom)
            .map(|(_, _, amount)| *amount)
            .sum()
    }

    fn transfer(&mut self, from: &str, to: &str, coin: &Coin) {
        let rest = self.query_balance(from, &coin.denom).checked_sub(coin.amount).unwrap();
        self.balances.retain(|(o, d, _)| !(o == from && *d == coin.denom));
        self.balances.push((from.to_owned(), coin.denom.clone(), rest));
        self.balances.push((to.to_owned(), coin.denom.clone(), coin.amount));
    }

    fn registry(&self, addr: &str) -> &Registry {
        &self.registries.iter().find(|(a, _)| a == addr).unwrap().1
    }

    fn registry_mut(&mut self, addr: &str) -> &mut Registry {
        &mut self.registries.iter_mut().find(|(a, _)| a == addr).unwrap().1
    }

    fn vote(&self, addr: &str) -> &VoteProposal {
        &self.votes.iter().find(|(a, _)| a == addr).unwrap().1
    }

    fn vote_mut(&mut self, addr: &str) -> &mut VoteProposal {
        &mut self.votes.iter_mut().find(|(a, _)| a == addr).unwrap().1
    }

    /// Creates a registry: the host validates the identities and hands the
    /// registry its verdicts.
    fn instantiate_admin(
        &mut self,
        sender: &str,
        msg: AdminInstantiateMsg,
        funds: Vec<Coin>,
        label: &str,
    ) -> Result<String, ContractError> {
        let api = MockApi::default();
        let verdicts: Vec<bool> = msg.admins.iter().map(|a| api.addr_validate(a).is_ok()).collect();
        let registry = admin::instantiate(&self.env(), &info(sender, funds), msg, &verdicts)?;
        let address = self.next_address(label);
        self.registries.push((address.clone(), registry));
        Ok(address)
    }

    fn query_admin(&self, addr: &str, msg: AdminQueryMsg) -> Result<admin::QueryResponse, ContractError> {
        admin::query(self.registry(addr), &self.env(), msg)
    }

    fn admins_list(&self, addr: &str) -> AdminsListResp {
        match self.query_admin(addr, AdminQueryMsg::AdminsList {}).unwrap() {
            admin::QueryResponse::AdminsList(resp) => resp,
            other => panic!("unexpected answer {:?}", other),
        }
    }

    fn join_time(&self, addr: &str, who: &str) -> Option<Timestamp> {
        match self.query_admin(addr, AdminQueryMsg::JoinTime { admin: who.to_owned() }) {
            Ok(admin::QueryResponse::JoinTime(resp)) => Some(resp.joined),
            Ok(other) => panic!("unexpected answer {:?}", other),
            Err(e) => {
                assert_eq!(e, ContractError::NotFound);
                None
            }
        }
    }

    fn query_vote(&self, addr: &str, msg: VoteQueryMsg) -> vote::QueryResponse {
        vote::query(self.vote(addr), &self.env(), msg)
    }

    fn votes_left(&self, addr: &str) -> VotesLeftResp {
        match self.query_vote(addr, VoteQueryMsg::VotesLeft {}) {
            vote::QueryResponse::VotesLeft(resp) => resp,
            other => panic!("unexpected answer {:?}", other),
        }
    }

    fn proposed_admin(&self, addr: &str) -> ProposedAdminResp {
        match self.query_vote(addr, VoteQueryMsg::ProposedAdmin {}) {
            vote::QueryResponse::ProposedAdmin(resp) => resp,
            other => panic!("unexpected answer {:?}", other),
        }
    }

    /// Runs an operation of the registry `addr` and what it asks the host to
    /// do: for a proposal, the host creates the vote proposal and hands its
    /// identity back, and the registry notes the candidate that the new
    /// proposal reports; for a donation, the host pays the transfers.
    fn execute_admin(
        &mut self,
        sender: &str,
        addr: &str,
        msg: AdminExecuteMsg,
        funds: Vec<Coin>,
    ) -> Result<AppResponse, ContractError> {
        let env = self.env();
        for coin in funds.iter() {
            self.transfer(sender, addr, coin);
        }
        let response = admin::execute(self.registry_mut(addr), &env, &info(sender, funds), msg)?;
        match response {
            admin::Response::AddMember { .. } | admin::Response::Leave => {
                Ok(AppResponse { data: None })
            }
            admin::Response::ProposeAdmin { code_id, msg, label, reply_id } => {
                assert_eq!(code_id, self.registry(addr).vote_code_id());
                assert_eq!(label, format!("admin-{}", sender));
                let proposal = vote::instantiate(&env, &info(addr, vec![]), msg);
                let vote_addr = self.next_address(&label);
                self.votes.push((vote_addr.clone(), proposal));

                let reply = Reply {
                    id: reply_id,
                    result: Ok(SubMsgResponse { data: Some(instantiate_response(&vote_addr)) }),
                };
                let resp = admin::reply(reply)?;
                let candidate = self.proposed_admin(&resp.vote_addr).proposed_admin;
                self.registry_mut(addr).record_pending(resp.vote_addr.clone(), candidate);
                Ok(AppResponse { data: Some(resp) })
            }
            admin::Response::Donate { transfers, .. } => {
                for send in transfers {
                    self.transfer(addr, &send.to_address, &send.amount);
                }
                Ok(AppResponse { data: None })
            }
        }
    }

    /// Runs an operation of the vote proposal `addr`: the proposal learns
    /// from its registry when the sender was admitted, and where the ballot
    /// finalizes the vote, the registry gets the proposal's message.
    fn execute_vote(
        &mut self,
        sender: &str,
        addr: &str,
        msg: VoteExecuteMsg,
        funds: Vec<Coin>,
    ) -> Result<AppResponse, ContractError> {
        let env = self.env();
        let owner = self.vote(addr).owner().clone();
        let joined = self.join_time(&owner, sender);
        let response = vote::execute(self.vote_mut(addr), &env, &info(sender, funds), msg, joined)?;
        if let vote::Response::Finalize { contract_addr, msg } = response {
            assert_eq!(contract_addr, owner);
            self.execute_admin(addr, &contract_addr, msg, vec![])?;
        }
        Ok(AppResponse { data: None })
    }
}

fn strings(items: &[&str]) -> Vec<String> {
    items.iter().map(|s| s.to_string()).collect()
}

#[test]
fn instantiation() {
    let mut app = App::default();

    let addr = app
        .instantiate_admin(
            "owner",
            AdminInstantiateMsg {
                admins: vec![],
                donation_denom: "eth".to_owned(),
                vote_code_id: VOTE_INSTANTIATE_ID,
                quorum: Decimal::raw(30),
            },
            vec![],
            "Contract",
        )
        .unwrap();

    let resp = app.admins_list(&addr);

    assert_eq!(resp, AdminsListResp { admins: vec![] });

    let addr = app
        .instantiate_admin(
            "owner",
            AdminInstantiateMsg {
                admins: vec!["admin1".to_owned(), "admin2".to_owned()],
                donation_denom: "eth".to_owned(),
                vote_code_id: VOTE_INSTANTIATE_ID,
                quorum: Decimal::raw(30),
            },
            vec![],
            "Contract 2",
        )
        .unwrap();

    let resp = app.admins_list(&addr);

    assert_eq!(
        resp,
        AdminsListResp { admins: vec!["admin1".to_owned(), "admin2".to_owned()] }
    );

    let addr = app
        .instantiate_admin(
            "owner",
            AdminInstantiateMsg {
                admins: vec!["owner".to_owned(), "admin1".to_owned()],
                donation_denom: "eth".to_owned(),
                vote_code_id: VOTE_INSTANTIATE_ID,
                quorum: Decimal::raw(30),
            },
            vec![],
            "Contract 3",
        )
        .unwrap();

    let resp = app.admins_list(&addr);

    assert_eq!(
        resp,
        AdminsListResp { admins: vec!["admin1".to_owned(), "owner".to_owned()] }
    );
}

#[test]
fn donations() {
    let mut app = App::default();
    app.init_balance("user", coins(5, "eth"));

    let addr = app
        .instantiate_admin(
            "owner",
            AdminInstantiateMsg {
                admins: vec!["admin1".to_owned(), "admin2".to_owned()],
                donation_denom: "eth".to_owned(),
                vote_code_id: VOTE_INSTANTIATE_ID,
                quorum: Decimal::raw(30),
            },
            vec![],
            "Contract",
        )
        .unwrap();

    app.execute_admin("user", &addr, AdminExecuteMsg::Donate {}, coins(5, "eth")).unwrap();

    assert_eq!(app.query_balance("user", "eth"), 0);

    assert_eq!(app.query_balance(&addr, "eth"), 1);

    assert_eq!(app.query_balance("admin1", "eth"), 2);

    assert_eq!(app.query_balance("admin2", "eth"), 2);
}

#[test]
fn propose_admin() {
    let admin_code_id = 1;
    let vote_code_id = 2;
    let mut app = App::default();

    let addr = app
        .instantiate_admin(
            "owner",
            AdminInstantiateMsg {
                admins: vec![],
                donation_denom: "eth".to_owned(),
                vote_code_id,
                quorum: Decimal::raw(30),
            },
            vec![],
            "Contract",
        )
        .unwrap();

    let resp = app.admins_list(&addr);

    assert_eq!(resp, AdminsListResp { admins: vec![] });

    app.execute_admin(
        "owner",
        &addr,
        AdminExecuteMsg::ProposeAdmin { addr: String::from("proposed_admin"), admin_code_id },
        vec![],
    )
    .unwrap();
}

#[test]
fn accept_vote() {
    let mut app = App::default();
    app.init_balance("admin1", coins(100, "utgd"));
    let admin_code_id = 1;
    let vote_code_id = 2;

    let admin = app
        .instantiate_admin(
            "owner",
            AdminInstantiateMsg {
                admins: vec![
                    String::from("owner"),
                    String::from("admin1"),
                    String::from("admin2"),
                    String::from("admin3"),
                ],
                donation_denom: "eth".to_owned(),
                vote_code_id,
                quorum: Decimal::percent(75),
            },
            vec![],
            "vote",
        )
        .unwrap();

    let resp: AppResponse = app
        .execute_admin(
            "owner",
            &admin,
            AdminExecuteMsg::ProposeAdmin { addr: String::from("new_admin"), admin_code_id },
            vec![],
        )
        .unwrap();

    let propose_admin_resp: ProposeAdminResp = resp.data.unwrap();

    let resp = app.votes_left(&propose_admin_resp.vote_addr);

    assert_eq!(resp, VotesLeftResp { votes_left: decimal("3.0") });

    app.execute_vote("admin1", &propose_admin_resp.vote_addr, VoteExecuteMsg::Accept {}, vec![])
        .unwrap();

    let resp = app.votes_left(&propose_admin_resp.vote_addr);

    assert_eq!(resp, VotesLeftResp { votes_left: decimal("2.0") });

    app.execute_vote("admin1", &propose_admin_resp.vote_addr, VoteExecuteMsg::Accept {}, vec![])
        .unwrap();

    let resp = app.votes_left(&propose_admin_resp.vote_addr);

    assert_eq!(resp, VotesLeftResp { votes_left: decimal("2.0") });

    app.execute_vote("admin2", &propose_admin_resp.vote_addr, VoteExecuteMsg::Accept {}, vec![])
        .unwrap();

    let resp = app.votes_left(&propose_admin_resp.vote_addr);

    assert_eq!(resp, VotesLeftResp { votes_left: decimal("1.0") });

    app.execute_vote("admin3", &propose_admin_resp.vote_addr, VoteExecuteMsg::Accept {}, vec![])
        .unwrap();

    let resp = app.votes_left(&propose_admin_resp.vote_addr);

    assert_eq!(resp, VotesLeftResp { votes_left: Decimal::zero() });

    app.execute_vote("admin3", &propose_admin_resp.vote_addr, VoteExecuteMsg::Accept {}, vec![])
        .unwrap();

    let resp = app.votes_left(&propose_admin_resp.vote_addr);

    assert_eq!(resp, VotesLeftResp { votes_left: Decimal::zero() });

    assert_eq!(
        app.admins_list(&admin).admins,
        strings(&["admin1", "admin2", "admin3", "new_admin", "owner"])
    );
}

/// The same ballots on a proposal that is created with the votes it requires
/// given as a whole number.
#[test]
fn lib_accept_vote() {
    let mut app = App::default();
    app.init_balance("admin1", coins(100, "utgd"));
    let vote_code_id = 2;

    let admin = app
        .instantiate_admin(
            "owner",
            AdminInstantiateMsg {
                admins: vec![
                    String::from("owner"),
                    String::from("admin1"),
                    String::from("admin2"),
                    String::from("admin3"),
                ],
                donation_denom: "eth".to_owned(),
                vote_code_id,
                quorum: Decimal::one(),
            },
            vec![],
            "vote",
        )
        .unwrap();

    let msg = VoteInstantiateMsg {
        required_votes: Decimal::raw(3 * Decimal::one().atomics()),
        proposed_admin: "new_admin".to_owned(),
        admin_code_id: 1,
    };
    let proposal = vote::instantiate(&app.env(), &info(&admin, vec![]), msg);
    let vote = app.next_address("vote");
    app.votes.push((vote.clone(), proposal));
    app.registry_mut(&admin).record_pending(vote.clone(), "new_admin".to_owned());

    let resp = app.votes_left(&vote);

    assert_eq!(resp, VotesLeftResp { votes_left: decimal("3") });

    app.execute_vote("admin1", &vote, VoteExecuteMsg::Accept {}, vec![]).unwrap();

    let resp = app.votes_left(&vote);

    assert_eq!(resp, VotesLeftResp { votes_left: decimal("2") });

    app.execute_vote("admin1", &vote, VoteExecuteMsg::Accept {}, vec![]).unwrap();

    let resp = app.votes_left(&vote);

    assert_eq!(resp, VotesLeftResp { votes_left: decimal("2") });

    app.execute_vote("admin2", &vote, VoteExecuteMsg::Accept {}, vec![]).unwrap();

    let resp = app.votes_left(&vote);

    assert_eq!(resp, VotesLeftResp { votes_left: decimal("1") });

    app.execute_vote("admin3", &vote, VoteExecuteMsg::Accept {}, vec![]).unwrap();

    let resp = app.votes_left(&vote);

    assert_eq!(resp, VotesLeftResp { votes_left: decimal("0") });

    app.execute_vote("admin3", &vote, VoteExecuteMsg::Accept {}, vec![]).unwrap();

    let resp = app.votes_left(&vote);

    assert_eq!(resp, VotesLeftResp { votes_left: decimal("0") });

    assert_eq!(app.admins_list(&admin).admins.len(), 5);
}

#[test]
fn add_member() {
    let mut app = App::default();
    app.init_balance("admin1", coins(100, "utgd"));
    let admin_code_id = 1;
    let vote_code_id = 2;

    let admin = app
        .instantiate_admin(
            "owner",
            AdminInstantiateMsg {
                admins: vec![String::from("owner"), String::from("admin1")],
                donation_denom: "eth".to_owned(),
                vote_code_id,
                quorum: Decimal::percent(50),
            },
            vec![],
            "vote",
        )
        .unwrap();

    let resp: AppResponse = app
        .execute_admin(
            "owner",
            &admin,
            AdminExecuteMsg::ProposeAdmin { addr: String::from("new_admin"), admin_code_id },
            vec![],
        )
        .unwrap();

    let propose_admin_resp: ProposeAdminResp = resp.data.unwrap();

    let resp = app.admins_list(&admin);

    assert_eq!(resp.admins.len(), 2);

    app.execute_vote("admin1", &propose_admin_resp.vote_addr, VoteExecuteMsg::Accept {}, vec![])
        .unwrap();

    let resp = app.admins_list(&admin);

    assert_eq!(resp.admins.len(), 3);
}

#[test]
fn duplicated_votes() {
    let mut app = App::default();
    app.init_balance("admin1", coins(100, "utgd"));
    let admin_code_id = 1;
    let vote_code_id = 2;

    let admin = app
        .instantiate_admin(
            "owner",
            AdminInstantiateMsg {
                admins: vec![
                    "owner".to_owned(),
                    "admin1".to_owned(),
                    "admin2".to_owned(),
                    "admin3".to_owned(),
                ],
                donation_denom: "eth".to_owned(),
                vote_code_id,
                quorum: Decimal::percent(75),
            },
            vec![],
            "vote",
        )
        .unwrap();

    let resp: AppResponse = app
        .execute_admin(
            "owner",
            &admin,
            AdminExecuteMsg::ProposeAdmin { addr: String::from("new_admin"), admin_code_id },
            vec![],
        )
        .unwrap();

    let propose_admin_resp: ProposeAdminResp = resp.data.unwrap();

    app.execute_vote("admin1", &propose_admin_resp.vote_addr, VoteExecuteMsg::Accept {}, vec![])
        .unwrap();

    let resp = app.admins_list(&admin);

    assert_eq!(resp.admins.len(), 4);

    app.execute_vote("admin1", &propose_admin_resp.vote_addr, VoteExecuteMsg::Accept {}, vec![])
        .unwrap();

    let resp = app.admins_list(&admin);

    assert_eq!(resp.admins.len(), 4);

    app.execute_vote("admin2", &propose_admin_resp.vote_addr, VoteExecuteMsg::Accept {}, vec![])
        .unwrap();

    let resp = app.admins_list(&admin);

    assert_eq!(resp.admins.len(), 4);

    app.execute_vote("admin1", &propose_admin_resp.vote_addr, VoteExecuteMsg::Accept {}, vec![])
        .unwrap();

    let resp = app.admins_list(&admin);

    assert_eq!(resp.admins.len(), 4);

    let created = app.env().time;
    app.next_block();

    app.execute_vote("admin3", &propose_admin_resp.vote_addr, VoteExecuteMsg::Accept {}, vec![])
        .unwrap();

    let resp = app.admins_list(&admin);

    assert_eq!(resp.admins.len(), 5);
    assert_eq!(resp.admins, strings(&["admin1", "admin2", "admin3", "new_admin", "owner"]));
    assert_eq!(app.join_time(&admin, "new_admin"), Some(app.env().time));
    for earlier in ["admin1", "admin2", "admin3", "owner"] {
        assert_eq!(app.join_time(&admin, earlier), Some(created));
    }
}

#[test]
fn accepting_vote_older_than_admin() {
    let mut app = App::default();
    app.init_balance("admin1", coins(100, "utgd"));
    let admin_code_id = 1;
    let vote_code_id = 2;

    let admin = app
        .instantiate_admin(
            "owner",
            AdminInstantiateMsg {
                admins: vec![String::from("owner"), String::from("admin1")],
                donation_denom: "eth".to_owned(),
                vote_code_id,
                quorum: Decimal::percent(50),
            },
            vec![],
            "vote",
        )
        .unwrap();

    let resp: AppResponse = app
        .execute_admin(
            "owner",
            &admin,
            AdminExecuteMsg::ProposeAdmin { addr: String::from("admin2"), admin_code_id },
            vec![],
        )
        .unwrap();

    let propose_admin_2_resp: ProposeAdminResp = resp.data.unwrap();

    let resp: AppResponse = app
        .execute_admin(
            "owner",
            &admin,
            AdminExecuteMsg::ProposeAdmin { addr: String::from("admin3"), admin_code_id },
            vec![],
        )
        .unwrap();

    let propose_admin_3_resp: ProposeAdminResp = resp.data.unwrap();

    let resp = app.admins_list(&admin);

    assert_eq!(resp.admins.len(), 2);

    app.next_block();

    app.execute_vote("admin1", &propose_admin_2_resp.vote_addr, VoteExecuteMsg::Accept {}, vec![])
        .unwrap();

    let resp = app.admins_list(&admin);

    assert_eq!(resp.admins.len(), 3);

    let err = app
        .execute_vote("admin2", &propose_admin_3_resp.vote_addr, VoteExecuteMsg::Accept {}, vec![])
        .err()
        .unwrap();

    assert_eq!(
        "Admin is not allowed to vote due to being approved after vote is created.",
        err.to_string()
    );

    let resp = app.admins_list(&admin);

    assert_eq!(resp.admins.len(), 3);

    app.execute_vote("admin1", &propose_admin_3_resp.vote_addr, VoteExecuteMsg::Accept {}, vec![])
        .unwrap();

    let resp = app.admins_list(&admin);

    assert_eq!(resp.admins.len(), 4);
}

/// Three admins and a quorum of 40% require 1.2 votes. The first ballot
/// leaves 0.2 votes needed, so the proposal stays open; the second closes it.
#[test]
fn required_votes_not_being_integers() {
    let mut app = App::default();
    app.init_balance("admin1", coins(100, "utgd"));
    let admin_code_id = 1;
    let vote_code_id = 2;

    let admin = app
        .instantiate_admin(
            "owner",
            AdminInstantiateMsg {
                admins: vec![
                    String::from("owner"),
                    String::from("admin1"),
                    String::from("admin2"),
                ],
                donation_denom: "eth".to_owned(),
                vote_code_id,
                quorum: Decimal::percent(40),
            },
            vec![],
            "vote",
        )
        .unwrap();

    let resp: AppResponse = app
        .execute_admin(
            "owner",
            &admin,
            AdminExecuteMsg::ProposeAdmin { addr: String::from("admin3"), admin_code_id },
            vec![],
        )
        .unwrap();

    let resp: ProposeAdminResp = resp.data.unwrap();
    let vote_addr = resp.vote_addr;

    let resp = app.admins_list(&admin);

    assert_eq!(resp.admins.len(), 3);
    assert_eq!(app.votes_left(&vote_addr), VotesLeftResp { votes_left: decimal("1.2") });

    app.execute_vote("admin1", &vote_addr, VoteExecuteMsg::Accept {}, vec![]).unwrap();

    assert_eq!(app.votes_left(&vote_addr), VotesLeftResp { votes_left: decimal("0.2") });
    assert_eq!(app.admins_list(&admin).admins.len(), 3);

    app.execute_vote("admin2", &vote_addr, VoteExecuteMsg::Accept {}, vec![]).unwrap();

    assert_eq!(app.votes_left(&vote_addr).votes_left.atomics(), -800_000_000_000_000_000);

    let resp = app.admins_list(&admin);

    assert_eq!(resp.admins.len(), 4);
    assert_eq!(resp.admins, strings(&["admin1", "admin2", "admin3", "owner"]));
}

#[test]
fn vote_instantiation() {
    let mut app = App::default();
    app.init_balance("admin1", coins(100, "utgd"));
    let admin_code_id = 1;
    let vote_code_id = 2;

    let admin = app
        .instantiate_admin(
            "owner",
            AdminInstantiateMsg {
                admins: vec![String::from("owner"), String::from("admin1")],
                donation_denom: "eth".to_owned(),
                vote_code_id,
                quorum: Decimal::percent(50),
            },
            vec![],
            "vote",
        )
        .unwrap();

    let resp: AppResponse = app
        .execute_admin(
            "owner",
            &admin,
            AdminExecuteMsg::ProposeAdmin { addr: String::from("proposed_admin"), admin_code_id },
            vec![],
        )
        .unwrap();

    let resp: ProposeAdminResp = resp.data.unwrap();
    let addr = resp.vote_addr;

    let resp = app.votes_left(&addr);

    assert_eq!(resp, VotesLeftResp { votes_left: decimal("1.0") });

    let resp = app.proposed_admin(&addr);

    assert_eq!(resp, ProposedAdminResp { proposed_admin: "proposed_admin".to_owned() });
}

/// A registry of `admins` with a quorum of `percent` hundredths.
fn registry_of(app: &mut App, admins: &[&str], percent: u64) -> String {
    let msg = AdminInstantiateMsg {
        admins: strings(admins),
        donation_denom: "eth".to_owned(),
        vote_code_id: 2,
        quorum: Decimal::percent(percent),
    };
    app.instantiate_admin("owner", msg, vec![], "registry").unwrap()
}

fn propose(app: &mut App, registry: &str, sender: &str, candidate: &str) -> String {
    let msg = AdminExecuteMsg::ProposeAdmin { addr: candidate.to_owned(), admin_code_id: 1 };
    app.execute_admin(sender, registry, msg, vec![]).unwrap().data.unwrap().vote_addr
}

fn accept(app: &mut App, vote: &str, sender: &str) -> Result<(), ContractError> {
    app.execute_vote(sender, vote, VoteExecuteMsg::Accept {}, vec![]).map(|_| ())
}

/// An admin who joins after a proposal was created is refused on it and
/// accepted on a proposal that is created later.
#[test]
fn late_admin_votes_on_later_proposal() {
    let mut app = App::default();
    let registry = registry_of(&mut app, &["owner", "admin1"], 50);
    let first = propose(&mut app, &registry, "owner", "admin2");
    let early = propose(&mut app, &registry, "owner", "admin3");
    app.next_block();
    accept(&mut app, &first, "owner").unwrap();
    assert_eq!(app.admins_list(&registry).admins, strings(&["admin1", "admin2", "owner"]));

    assert_eq!(accept(&mut app, &early, "admin2"), Err(ContractError::IneligibleVoter));
    assert_eq!(app.votes_left(&early), VotesLeftResp { votes_left: decimal("1.0") });

    app.next_block();
    let later = propose(&mut app, &registry, "admin2", "admin4");
    assert_eq!(app.votes_left(&later), VotesLeftResp { votes_left: decimal("1.5") });
    accept(&mut app, &later, "admin2").unwrap();
    assert_eq!(app.votes_left(&later), VotesLeftResp { votes_left: decimal("0.5") });
    accept(&mut app, &later, "admin1").unwrap();
    assert_eq!(
        app.admins_list(&registry).admins,
        strings(&["admin1", "admin2", "admin4", "owner"])
    );
}

/// Two proposals that are pending at once each admit their own candidate.
#[test]
fn concurrent_proposals_keep_their_candidates() {
    let mut app = App::default();
    let registry = registry_of(&mut app, &["owner", "admin1"], 50);
    let for_carol = propose(&mut app, &registry, "owner", "carol");
    let for_dave = propose(&mut app, &registry, "admin1", "dave");
    assert_ne!(for_carol, for_dave);

    accept(&mut app, &for_dave, "admin1").unwrap();
    assert_eq!(app.admins_list(&registry).admins, strings(&["admin1", "dave", "owner"]));

    accept(&mut app, &for_carol, "owner").unwrap();
    assert_eq!(app.admins_list(&registry).admins, strings(&["admin1", "carol", "dave", "owner"]));
}

/// A vote proposal of one registry admits nobody to another.
#[test]
fn a_vote_of_another_registry_is_an_unknown_caller() {
    let mut app = App::default();
    let here = registry_of(&mut app, &["owner", "admin1"], 50);
    let there = registry_of(&mut app, &["owner", "admin1"], 50);
    let vote = propose(&mut app, &here, "owner", "carol");

    let r = app.execute_admin(&vote, &there, AdminExecuteMsg::AddMember {}, vec![]);
    assert_eq!(r.err(), Some(ContractError::UnknownCaller));
    assert_eq!(app.admins_list(&there).admins, strings(&["admin1", "owner"]));
    assert_eq!(app.admins_list(&here).admins, strings(&["admin1", "owner"]));
}

/// The vote is finalized once: ballots after the quorum are counted and
/// change no membership.
#[test]
fn ballots_after_the_quorum_do_not_finalize_again() {
    let mut app = App::default();
    let registry = registry_of(&mut app, &["owner", "admin1", "admin2"], 30);
    let vote_addr = propose(&mut app, &registry, "owner", "carol");
    assert_eq!(app.votes_left(&vote_addr), VotesLeftResp { votes_left: decimal("0.9") });

    accept(&mut app, &vote_addr, "owner").unwrap();
    assert_eq!(app.votes_left(&vote_addr).votes_left.atomics(), -100_000_000_000_000_000);
    assert_eq!(app.admins_list(&registry).admins.len(), 4);
    let joined = app.join_time(&registry, "carol");

    app.next_block();
    accept(&mut app, &vote_addr, "admin1").unwrap();
    assert_eq!(app.votes_left(&vote_addr).votes_left.atomics(), -1_100_000_000_000_000_000);
    assert_eq!(app.admins_list(&registry).admins.len(), 4);
    assert_eq!(app.join_time(&registry, "carol"), joined);
    assert_eq!(app.vote(&vote_addr).votes(), &strings(&["owner", "admin1"]));
}

/// A registry without admins requires no votes: the proposal is closed from
/// the start, nobody can vote on it, and nobody is admitted.
#[test]
fn proposal_of_an_empty_registry_admits_nobody() {
    let mut app = App::default();
    let registry = registry_of(&mut app, &[], 50);
    let vote_addr = propose(&mut app, &registry, "owner", "carol");
    assert_eq!(app.votes_left(&vote_addr), VotesLeftResp { votes_left: Decimal::zero() });
    assert_eq!(accept(&mut app, &vote_addr, "carol"), Err(ContractError::NotAnAdmin));
    assert_eq!(app.admins_list(&registry).admins.len(), 0);
}

/// Someone who voted, left and was admitted again later is still known as a
/// voter: the second ballot is ignored, not refused.
#[test]
fn voter_who_left_and_came_back_is_still_a_voter() {
    let mut app = App::default();
    let registry = registry_of(&mut app, &["owner", "admin1", "admin2", "admin3"], 75);
    let long_vote = propose(&mut app, &registry, "owner", "carol");
    accept(&mut app, &long_vote, "admin1").unwrap();
    assert_eq!(app.votes_left(&long_vote), VotesLeftResp { votes_left: decimal("2.0") });

    app.execute_admin("admin1", &registry, AdminExecuteMsg::Leave {}, vec![]).unwrap();
    assert_eq!(app.admins_list(&registry).admins, strings(&["admin2", "admin3", "owner"]));

    app.next_block();
    let back = propose(&mut app, &registry, "owner", "admin1");
    assert_eq!(app.votes_left(&back), VotesLeftResp { votes_left: decimal("2.25") });
    accept(&mut app, &back, "owner").unwrap();
    accept(&mut app, &back, "admin2").unwrap();
    accept(&mut app, &back, "admin3").unwrap();
    assert_eq!(
        app.admins_list(&registry).admins,
        strings(&["admin1", "admin2", "admin3", "owner"])
    );
    let rejoined = app.join_time(&registry, "admin1").unwrap();
    assert!(rejoined.nanos() > app.vote(&long_vote).start_time().nanos());

    assert_eq!(accept(&mut app, &long_vote, "admin1"), Ok(()));
    assert_eq!(app.votes_left(&long_vote), VotesLeftResp { votes_left: decimal("2.0") });
}
