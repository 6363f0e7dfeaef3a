use xca::contracts::account::{
    call_plan, finish_call_message, instantiate_config as account_instantiate, is_executable_for,
    outgoing_request, reply as account_reply, update_config as account_update, XRequest,
    OUTGOING_NONCE, STAKING_CODE_ID,
};
use xca::contracts::factory::{
    instantiate_config as factory_instantiate, mail_value, open_mail,
    query_config as factory_query, reply as factory_reply, EventAttribute, ReplyEvent,
    OPEN_MAIL_NONCE, OPEN_MAIL_REPLY_ID,
};
use xca::contracts::registry::{find_chain_info, local_chain_info, Config as RegistryConfig};
use xca::contracts::smart_wallet::{
    authorize_admin, check_archive, parse_and_archive, instantiate_config as wallet_instantiate,
    query_config as wallet_query, wormhole_dispatch, DEFAULT_NONCE,
};
use xca::contracts::staking::{
    execute as staking_execute, instantiate as staking_instantiate, query_config as staking_query_config,
    query_state, stake, unstake, Coin, Outcome, State,
};
use xca::error::XcaError;
use xca::xca::account::InstantiateMsg as AccountInstantiateMsg;
use xca::xca::messages::AccountInfo;
use xca::xca::registry::{ChainInfo, ConfigResponse, ExecuteMsg as RegistryExecuteMsg, InstantiateMsg as RegistryInstantiateMsg};
use xca::xca::staking::{ExecuteMsg as StakingExecuteMsg, InstantiateMsg as StakingInstantiateMsg};
use xca::xca::wormhole::AccountInfo as WalletAccount;

fn chain(id: u64, core: &str) -> ChainInfo {
    ChainInfo {
        wormhole_id: id,
        wormhole_core: core.to_string(),
        x_account_factory: format!("factory{}", id),
        x_account_deployer: format!("deployer{}", id),
    }
}

fn registry_answer(here: u64, infos: Vec<ChainInfo>) -> ConfigResponse {
    ConfigResponse { chain_id_here: here, x_account_code_id: 1, chain_info: infos }
}

#[test]
fn registry_starts_empty() {
    let c = RegistryConfig::instantiate(RegistryInstantiateMsg { chain_id_here: 18, x_account_code_id: 7 });
    assert_eq!(c.chain_id_here, 18);
    assert_eq!(c.x_account_code_id, 7);
    assert!(c.chain_info.is_empty());
}

#[test]
fn registry_update_config() {
    let mut c = RegistryConfig::instantiate(RegistryInstantiateMsg { chain_id_here: 18, x_account_code_id: 7 });
    c.execute(RegistryExecuteMsg::UpdateConfig { x_account_code_id: None });
    assert_eq!(c.x_account_code_id, 7);
    c.execute(RegistryExecuteMsg::UpdateConfig { x_account_code_id: Some(9) });
    assert_eq!(c.x_account_code_id, 9);
    assert_eq!(c.chain_id_here, 18);
}

#[test]
fn registry_upsert_replaces_same_chain() {
    let mut c = RegistryConfig::instantiate(RegistryInstantiateMsg { chain_id_here: 18, x_account_code_id: 7 });
    c.execute(RegistryExecuteMsg::UpsertChainInfo { chain_info: chain(1, "a") });
    c.execute(RegistryExecuteMsg::UpsertChainInfo { chain_info: chain(2, "b") });
    c.execute(RegistryExecuteMsg::UpsertChainInfo { chain_info: chain(1, "c") });
    let ids: Vec<u64> = c.chain_info.iter().map(|x| x.wormhole_id).collect();
    assert_eq!(ids, vec![2, 1]);
    assert_eq!(c.chain_info[1].wormhole_core, "c");
    // upserting the same entry again changes nothing
    c.execute(RegistryExecuteMsg::UpsertChainInfo { chain_info: chain(1, "c") });
    let ids: Vec<u64> = c.chain_info.iter().map(|x| x.wormhole_id).collect();
    assert_eq!(ids, vec![2, 1]);
    let answer = c.query();
    assert_eq!(answer.chain_id_here, 18);
    assert_eq!(answer.chain_info.len(), 2);
}

#[test]
fn registry_lookup() {
    let infos = vec![chain(1, "a"), chain(2, "b"), chain(2, "b2")];
    assert_eq!(find_chain_info(infos, 2).unwrap().wormhole_core, "b");
    let infos = vec![chain(1, "a")];
    assert!(find_chain_info(infos, 5).is_none());
    assert_eq!(local_chain_info(registry_answer(1, vec![chain(1, "core")])).unwrap().wormhole_core, "core");
    assert!(matches!(local_chain_info(registry_answer(3, vec![chain(1, "core")])), Err(XcaError::MissingChainInfo)));
}

#[test]
fn account_config() {
    let admin = AccountInfo { chain_id: 1, address: "admin".to_string() };
    let master = AccountInfo { chain_id: 2, address: "master".to_string() };
    let c = account_instantiate(AccountInstantiateMsg {
        x_chain_registry_address: "reg".to_string(),
        admin,
        master,
        slave: None,
    });
    assert_eq!(c.x_chain_registry, "reg");
    assert_eq!(c.admin.address, "admin");
    assert_eq!(c.master.chain_id, 2);
    assert!(c.slave.is_none());
    let u = account_update(
        "reg2".to_string(),
        AccountInfo { chain_id: 3, address: "x".to_string() },
        AccountInfo { chain_id: 4, address: "y".to_string() },
        Some(AccountInfo { chain_id: 5, address: "z".to_string() }),
    );
    assert_eq!(u.x_chain_registry, "reg2");
    assert_eq!(u.slave.unwrap().chain_id, 5);
}

#[test]
fn account_reply_accepts_only_post_reply() {
    assert!(account_reply(1).is_ok());
    assert!(matches!(account_reply(0), Err(XcaError::InvalidReply)));
    assert!(matches!(account_reply(2), Err(XcaError::InvalidReply)));
}

#[test]
fn account_is_executable() {
    assert_eq!(is_executable_for(&None), 1);
    assert_eq!(is_executable_for(&Some("QueryMsg".to_string())), 0);
    assert_eq!(is_executable_for(&Some("ExecuteMsg".to_string())), 1);
    assert_eq!(is_executable_for(&Some("querymsg".to_string())), 1);
}

#[test]
fn account_call_plan() {
    let plan = call_plan(
        registry_answer(2, vec![chain(1, "a"), chain(2, "core2")]),
        &Some("QueryMsg".to_string()),
        vec![7, 7, 7, 7, 42],
        &Some(vec![1]),
    );
    // neither the call's type nor its extra data changes the plan
    let other = call_plan(registry_answer(2, vec![chain(2, "core2")]), &None, vec![7, 7, 7, 7, 42], &None);
    assert_eq!(other.message, plan.message);
    assert_eq!(plan.wormhole_core, "core2");
    assert_eq!(plan.nonce, OUTGOING_NONCE);
    assert_eq!(plan.nonce, 6969);
    let r = outgoing_request(2, vec![7, 7, 7, 7, 42]);
    assert_eq!(plan.message, r.serialize());
    assert_eq!(plan.message.len(), 244 + 5);
    assert_eq!(plan.message[0], 1);
    assert_eq!(&plan.message[1..9], &2u64.to_be_bytes());
    let back = XRequest::deserialize(&plan.message).unwrap();
    assert_eq!(back.request_chain_id, 2);
    assert_eq!(back.request_address, vec![0u8; 32]);
    assert_eq!(back.payload, vec![42]);
}

#[test]
fn account_finish_call() {
    let m = finish_call_message(&vec![3u8; 250]);
    assert_eq!(m.code_id, STAKING_CODE_ID);
    assert_eq!(m.code_id, 4998);
    assert_eq!(m.label, "staking_contract");
    assert_eq!(m.denom_name, "uluna");
    assert!(m.admin.is_none());
}

#[test]
fn error_messages() {
    assert_eq!(XcaError::MissingChainInfo.message(), "registry missing this chain's wormhole info");
    assert_eq!(XcaError::InvalidReply.message(), "invalid reply");
    assert_eq!(XcaError::NoSequence.message(), "no sequence");
    assert_eq!(XcaError::ReplyRefused.message(), "fail ftw");
    assert_eq!(XcaError::VaaAlreadyExecuted.message(), "VAA already executed");
    assert_eq!(XcaError::NoStakableDenom.message(), "Expected stakable denom not sent");
    assert_eq!(XcaError::Unauthorized.message(), "unauthorized");
}

fn coin(denom: &str, amount: u128) -> Coin {
    Coin { denom: denom.to_string(), amount }
}

#[test]
fn staking_flow() {
    let (config, mut state) = staking_instantiate(StakingInstantiateMsg { denom_name: "uluna".to_string() });
    assert_eq!(state.total_staked, 0);
    assert_eq!(staking_query_config(&config).denom_name, "uluna");
    let funds = vec![coin("uatom", 5), coin("uluna", 0), coin("uluna", 30), coin("uluna", 9)];
    let s = stake(&config, &mut state, 12, &funds).unwrap();
    assert_eq!(s, 42);
    assert_eq!(state.total_staked, 30);
    assert_eq!(query_state(&state).total_staked, 30);
    let send = unstake(&config, 42);
    assert_eq!(send.denom, "uluna");
    assert_eq!(send.amount, 42);
}

#[test]
fn staking_refuses_without_stakable_coin() {
    let (config, _) = staking_instantiate(StakingInstantiateMsg { denom_name: "uluna".to_string() });
    let mut state = State { total_staked: 100 };
    let r = stake(&config, &mut state, 5, &vec![coin("uatom", 5), coin("uluna", 0)]);
    assert!(matches!(r, Err(XcaError::NoStakableDenom)));
    assert_eq!(state.total_staked, 100);
    let r = stake(&config, &mut state, 5, &vec![]);
    assert!(matches!(r, Err(XcaError::NoStakableDenom)));
}

#[test]
fn staking_execute_dispatches() {
    let (config, mut state) = staking_instantiate(StakingInstantiateMsg { denom_name: "u".to_string() });
    match staking_execute(&config, &mut state, StakingExecuteMsg::Stake {}, 1, &vec![coin("u", 4)]) {
        Ok(Outcome::Staked { staker_amount }) => assert_eq!(staker_amount, 5),
        _ => panic!("stake refused"),
    }
    assert_eq!(state.total_staked, 4);
    match staking_execute(&config, &mut state, StakingExecuteMsg::Unstake {}, 5, &vec![]) {
        Ok(Outcome::Send(send)) => {
            assert_eq!(send.amount, 5);
            assert_eq!(send.denom, "u");
        }
        _ => panic!("unstake refused"),
    }
    assert_eq!(state.total_staked, 4);
}

#[test]
fn wallet_config() {
    let c = wallet_instantiate(
        "owner".to_string(),
        vec![WalletAccount { chain_id: 1, address: "a".to_string(), is_emitter: 1 }],
    );
    assert_eq!(c.owner, "owner");
    assert_eq!(c.wormhole_contract, "owner");
    let r = wallet_query(c);
    assert_eq!(r.accounts.len(), 1);
    assert_eq!(r.wormhole_contract, "owner");
}

fn emitter_wallet() -> xca::contracts::smart_wallet::Config {
    wallet_instantiate(
        "core".to_string(),
        vec![
            WalletAccount { chain_id: 1, address: "receiver".to_string(), is_emitter: 0 },
            WalletAccount { chain_id: 2, address: "emitter".to_string(), is_emitter: 1 },
        ],
    )
}

#[test]
fn wallet_dispatch() {
    let sender = "emitter".to_string();
    let plan = wormhole_dispatch(emitter_wallet(), &sender, vec![1, 2, 30], None).unwrap();
    assert_eq!(plan.contract_addr, "core");
    assert_eq!(plan.message, b"[1,2,30]".to_vec());
    assert_eq!(plan.nonce, DEFAULT_NONCE);
    assert_eq!(plan.nonce, 69);
    let plan = wormhole_dispatch(emitter_wallet(), &sender, vec![], Some(5)).unwrap();
    assert_eq!(plan.message, b"[]".to_vec());
    assert_eq!(plan.nonce, 5);
    let plan = wormhole_dispatch(emitter_wallet(), &sender, vec![0, 255, 100], Some(5)).unwrap();
    assert_eq!(plan.message, b"[0,255,100]".to_vec());
}

#[test]
fn wallet_dispatch_is_emitter_only() {
    for who in ["receiver", "core", "stranger"] {
        let r = wormhole_dispatch(emitter_wallet(), &who.to_string(), vec![1], None);
        assert!(matches!(r, Err(XcaError::Unauthorized)));
    }
    let none = wallet_instantiate("core".to_string(), vec![]);
    assert!(matches!(wormhole_dispatch(none, &"core".to_string(), vec![1], None), Err(XcaError::Unauthorized)));
}

#[test]
fn wallet_admin_is_owner_or_emitter() {
    let c = emitter_wallet();
    assert!(authorize_admin(&c, &"core".to_string()).is_ok());
    assert!(authorize_admin(&c, &"emitter".to_string()).is_ok());
    assert!(matches!(authorize_admin(&c, &"receiver".to_string()), Err(XcaError::Unauthorized)));
    assert!(matches!(authorize_admin(&c, &"stranger".to_string()), Err(XcaError::Unauthorized)));
}

#[test]
fn wallet_archive_check() {
    assert!(check_archive(Some(true)).is_ok());
    assert!(matches!(check_archive(Some(false)), Err(XcaError::VaaAlreadyExecuted)));
    assert!(matches!(check_archive(None), Err(XcaError::VaaAlreadyExecuted)));
}

#[test]
fn factory_config() {
    let c = factory_instantiate("registry".to_string());
    assert_eq!(factory_query(c).x_account_registry, "registry");
}

#[test]
fn factory_open_mail() {
    assert_eq!(mail_value(), 0);
    let plan = open_mail(registry_answer(4, vec![chain(4, "core4")])).unwrap();
    assert_eq!(plan.wormhole_core, "core4");
    assert_eq!(plan.message, b"\"0\"".to_vec());
    assert_eq!(plan.nonce, OPEN_MAIL_NONCE);
    assert_eq!(plan.nonce, 420);
    assert_eq!(plan.reply_id, OPEN_MAIL_REPLY_ID);
    assert!(matches!(open_mail(registry_answer(4, vec![chain(5, "x")])), Err(XcaError::MissingChainInfo)));
}

fn event(ty: &str, keys: &[&str]) -> ReplyEvent {
    ReplyEvent {
        ty: ty.to_string(),
        attributes: keys
            .iter()
            .map(|k| EventAttribute { key: k.to_string(), value: "1".to_string() })
            .collect(),
    }
}

#[test]
fn factory_reply_always_refuses() {
    let with_sequence = vec![event("transfer", &["message.sequence"]), event("wasm", &["a", "message.sequence"])];
    assert!(matches!(factory_reply(&with_sequence), Err(XcaError::ReplyRefused)));
    let without = vec![event("wasm", &["a"]), event("wasm", &["message.sequence"])];
    assert!(matches!(factory_reply(&without), Err(XcaError::NoSequence)));
}

#[test]
fn wallet_receive_needs_archived_hash() {
    let (m, record) = parse_and_archive(Some(true), &vec![4, 5]).unwrap();
    assert_eq!(m.payload, vec![4, 5]);
    assert!(record);
    assert!(matches!(parse_and_archive(None, &vec![4]), Err(XcaError::VaaAlreadyExecuted)));
    assert!(matches!(parse_and_archive(Some(false), &vec![4]), Err(XcaError::VaaAlreadyExecuted)));
}

#[test]
fn registry_upsert_keeps_other_chains() {
    let mut c = RegistryConfig::instantiate(RegistryInstantiateMsg { chain_id_here: 1, x_account_code_id: 0 });
    for (id, core) in [(1, "a"), (2, "b"), (3, "c")] {
        c.upsert_chain_info(chain(id, core));
    }
    c.upsert_chain_info(chain(2, "b2"));
    let infos = c.query().chain_info;
    assert_eq!(infos.len(), 3);
    let cores: Vec<String> = infos.iter().map(|x| x.wormhole_core.clone()).collect();
    assert_eq!(cores, vec!["a", "c", "b2"]);
}

#[test]
fn staking_total_matches_stakers() {
    // a store of stakers kept beside the contract state: the total stays its sum
    let (config, mut state) = staking_instantiate(StakingInstantiateMsg { denom_name: "u".to_string() });
    let mut stakers: Vec<(&str, u128)> = vec![];
    for (who, amount) in [("a", 5u128), ("b", 7), ("a", 11)] {
        let held = stakers.iter().find(|(w, _)| *w == who).map(|(_, x)| *x).unwrap_or(0);
        let new = stake(&config, &mut state, held, &vec![coin("u", amount)]).unwrap();
        match stakers.iter_mut().find(|(w, _)| *w == who) {
            Some(entry) => entry.1 = new,
            None => stakers.push((who, new)),
        }
        assert_eq!(state.total_staked, stakers.iter().map(|(_, x)| x).sum::<u128>());
    }
    assert_eq!(stakers, vec![("a", 16), ("b", 7)]);
    let _ = unstake(&config, 16);
    assert_eq!(state.total_staked, 23);
}
