use locking_contract::contract::{handle_lock_nft, instantiate, raise_proposal};
use locking_contract::emission::{classify_pair, emission_foundation, split_emission, PairKind};
use locking_contract::response::CosmosMsg;
use locking_contract::rewards::bribe_share;
use locking_contract::transfer::handle_transfer;
use locking_contract::voting::{bribe_proposal, vote_proposal};
use locking_contract::withdraw::handle_withdraw;
use locking_contract::query::query_withdrawable;
use locking_contract::decimal::{Decimal, Timestamp};
use locking_contract::env::{BlockInfo, ContractInfo, Env, MessageInfo};
use locking_contract::error::ContractError;
use locking_contract::msg::InstantiateMsg;
use locking_contract::state::{Coin, Emission, LockingPeriod, PeriodWeight, Status, Vtoken};
use locking_contract::store::ContractStore;

const DENOM: &str = "TKN";

fn mock_env() -> Env {
    Env {
        block: BlockInfo {
            height: 12_345,
            time: Timestamp::from_nanos(1_571_797_419_879_305_533),
            chain_id: "cosmos-testnet-14002".to_string(),
        },
        contract: ContractInfo { address: "cosmos2contract".to_string() },
    }
}

fn mock_info(sender: &str, funds: &[Coin]) -> MessageInfo {
    MessageInfo { sender: sender.to_string(), funds: funds.to_vec() }
}

fn coins(amount: u128, denom: &str) -> Vec<Coin> {
    vec![Coin { denom: denom.to_string(), amount }]
}

fn coin(amount: u128, denom: &str) -> Coin {
    Coin { denom: denom.to_string(), amount }
}

/// Returns default InstantiateMsg with each value in seconds.
/// Thus, t1 is 1 week (7*24*60*60) and similarly, t2 is 2 weeks.
fn init_msg() -> InstantiateMsg {
    InstantiateMsg {
        t1: PeriodWeight { period: 604_800, weight: Decimal::from_atomics(25, 2).unwrap() },
        t2: PeriodWeight { period: 1_209_600, weight: Decimal::from_atomics(50, 2).unwrap() },
        voting_period: 30000,
        vesting_contract: "vesting_contract".to_string(),
        foundation_addr: vec!["fd1".to_ascii_lowercase(), "fd2".to_ascii_lowercase()],
        foundation_percentage: Decimal::percent(2),
        surplus_asset_id: 3,
        emission: Emission {
            app_id: 1,
            total_rewards: 200000,
            rewards_pending: 200000,
            emission_rate: Decimal::percent(2),
            distributed_rewards: 0,
        },
        admin: "admin".to_string(),
        min_lock_amount: 1,
        cswap_id: 1,
    }
}

fn mock_dependencies() -> ContractStore {
    ContractStore::new()
}

#[test]
fn proper_initialization() {
    let env = mock_env();
    let mut deps = mock_dependencies();
    let info = mock_info("sender", &coins(0, DENOM));

    let msg = init_msg();
    assert_eq!(msg.t1.weight.to_string(), "0.25");

    let res = instantiate(&mut deps, &env, &info, msg.clone(), Ok(())).unwrap();
    assert_eq!(res.messages.len(), 0);
    assert_eq!(res.attributes.len(), 2);

    let state = deps.state.load().unwrap();
    assert_eq!(state.t1, msg.t1);
}

#[test]
fn lock_create_new_nft() {
    let mut deps = mock_dependencies();
    let env = mock_env();
    let info = mock_info("sender", &coins(0, DENOM));

    let imsg = init_msg();
    instantiate(&mut deps, &env, &info, imsg.clone(), Ok(())).unwrap();

    // Successful execution
    let info = mock_info("user1", &coins(100, DENOM));
    let res = handle_lock_nft(&mut deps, &env, &info, 1, LockingPeriod::T1, None).unwrap();

    assert_eq!(res.messages.len(), 0);
    assert_eq!(res.attributes.len(), 2);

    let sender_addr = "user1".to_string();
    let token = deps.tokens.load(&sender_addr).unwrap();

    assert_eq!(token.owner, sender_addr.clone());
    assert_eq!(token.token_id, 1u64);

    // Check to see the SUPPLY mapping is correct
    let supply = deps.supply.load(&DENOM.to_string()).unwrap();
    assert_eq!(supply.token, 100u128);
    assert_eq!(supply.vtoken, 25u128);
}

#[test]
fn lock_different_denom_and_time_period() {
    let mut deps = mock_dependencies();
    let env = mock_env();
    let info = mock_info("sender", &coins(0, DENOM));

    let imsg = init_msg();
    instantiate(&mut deps, &env, &info, imsg.clone(), Ok(())).unwrap();

    let info = mock_info("owner", &coins(100, "DNM1"));
    let owner_addr = "owner".to_string();

    // Create a new entry for DENOM in nft
    handle_lock_nft(&mut deps, &env, &info, 10, LockingPeriod::T1, None).unwrap();

    let info = mock_info("owner", &coins(100, "DNM2"));
    handle_lock_nft(&mut deps, &env, &info, 10, LockingPeriod::T2, None).unwrap();

    let nft = deps.vtokens.load(&(owner_addr.clone(), "DNM1".to_string())).unwrap();
    let nft2 = deps.vtokens.load(&(owner_addr.clone(), "DNM2".to_string())).unwrap();

    assert_eq!(nft.len(), 1);
    assert_eq!(nft[0].token.denom, "DNM1".to_string());
    assert_eq!(nft2[0].token.denom, "DNM2".to_string());

    // Check correct update in SUPPLY
    let supply = deps.supply.load(&"DNM1".to_string()).unwrap();
    assert_eq!(supply.token, 100u128);
    assert_eq!(supply.vtoken, 25u128);

    let supply = deps.supply.load(&"DNM2".to_string()).unwrap();
    assert_eq!(supply.token, 100u128);
    assert_eq!(supply.vtoken, 50u128);
}

#[test]
fn lock_same_denom_and_time_period() {
    let mut deps = mock_dependencies();
    let mut env = mock_env();
    let info = mock_info("sender", &[]);

    let imsg = init_msg();
    instantiate(&mut deps, &env, &info, imsg.clone(), Ok(())).unwrap();

    let info = mock_info("owner", &coins(100, DENOM));
    let owner_addr = "owner".to_string();

    handle_lock_nft(&mut deps, &env, &info, 10, LockingPeriod::T1, None).unwrap();

    // forward the time, inside 1 week
    let old_start_time = env.block.time;
    env.block.time = env.block.time.plus_seconds(100_000);

    let info = mock_info("owner", &coins(100, DENOM));
    handle_lock_nft(&mut deps, &env, &info, 10, LockingPeriod::T1, None).unwrap();

    let nft = deps.vtokens.load(&(owner_addr.clone(), "TKN".to_string())).unwrap();

    assert_eq!(nft.len(), 2);
    assert_eq!(nft[0].token.amount, 100u128);
    assert_eq!(nft[0].vtoken.amount, 25u128);
    assert_eq!(nft[0].start_time, old_start_time);
    assert_eq!(nft[0].end_time, old_start_time.plus_seconds(imsg.t1.period));
    assert_eq!(nft[0].period, LockingPeriod::T1);
    assert_eq!(nft[0].status, Status::Locked);

    // Check correct update in SUPPLY
    let supply = deps.supply.load(&DENOM.to_string()).unwrap();
    assert_eq!(supply.vtoken, 50u128);
    assert_eq!(supply.token, 200u128);
}

#[test]
fn lock_same_denom_diff_time_period() {
    let mut deps = mock_dependencies();
    let mut env = mock_env();
    let info = mock_info("sender", &coins(0, DENOM));

    let imsg = init_msg();
    instantiate(&mut deps, &env, &info, imsg.clone(), Ok(())).unwrap();

    let info = mock_info("owner", &coins(100, DENOM));
    let owner_addr = "owner".to_string();

    handle_lock_nft(&mut deps, &env, &info, 10, LockingPeriod::T1, None).unwrap();

    // forward the time, inside 1 week
    env.block.time = env.block.time.plus_seconds(100_000);

    // Lock for new time period
    handle_lock_nft(&mut deps, &env, &info, 10, LockingPeriod::T2, None).unwrap();

    let nft = deps.vtokens.load(&(owner_addr.clone(), "TKN".to_string())).unwrap();

    assert_eq!(nft.len(), 2);
    assert_eq!(nft[0].token.amount, 100u128);
    assert_eq!(nft[0].vtoken.amount, 25u128);
    assert_eq!(nft[1].token.amount, 100u128);
    assert_eq!(nft[1].vtoken.amount, 50u128);
    assert_eq!(nft[1].start_time, env.block.time);
    assert_eq!(nft[1].end_time, env.block.time.plus_seconds(imsg.t2.period));
    assert_eq!(nft[0].period, LockingPeriod::T1);
    assert_eq!(nft[0].status, Status::Locked);
    assert_eq!(nft[1].period, LockingPeriod::T2);
    assert_eq!(nft[1].status, Status::Locked);

    // Check correct update in SUPPLY
    let supply = deps.supply.load(&DENOM.to_string()).unwrap();
    assert_eq!(supply.token, 200u128);
    assert_eq!(supply.vtoken, 75u128);
}

#[test]
fn lock_zero_transfer() {
    let mut deps = mock_dependencies();
    let env = mock_env();
    let info = mock_info("sender", &coins(0, DENOM));

    let imsg = init_msg();
    instantiate(&mut deps, &env, &info, imsg.clone(), Ok(())).unwrap();

    // This should throw an error because the amount is zero
    let res = handle_lock_nft(&mut deps, &env, &info, 10, LockingPeriod::T1, None).unwrap_err();
    match res {
        ContractError::InsufficientFunds { .. } => {}
        e => panic!("{:?}", e),
    };
}

#[test]
fn raise_init() {
    let mut deps = mock_dependencies();
    let env = mock_env();
    let info = mock_info("sender", &[]);

    let imsg = init_msg();
    instantiate(&mut deps, &env, &info, imsg.clone(), Ok(())).unwrap();
}

#[test]
fn test_non_admin_proposal_error() {
    let mut deps = mock_dependencies();
    let env = mock_env();
    let info = mock_info("sender", &[]);

    let imsg = init_msg();
    instantiate(&mut deps, &env, &info, imsg.clone(), Ok(())).unwrap();
    let res = raise_proposal(&mut deps, &env, &info, 1, vec![1, 2, 3]).unwrap_err();
    match res {
        ContractError::Admin { .. } => {}
        e => panic!("{:?}", e),
    };
}

#[test]
fn proposal_successfully_set() {
    let mut deps = mock_dependencies();
    let env = mock_env();
    let info = mock_info("admin", &[]);

    let imsg = init_msg();
    instantiate(&mut deps, &env, &info, imsg.clone(), Ok(())).unwrap();
    let _res = raise_proposal(&mut deps, &env, &info, 1, vec![1, 2, 3]).unwrap();
    let current_proposal = deps.app_current_proposal.load(&1).unwrap();
    assert_eq!(current_proposal, 1);
}

#[test]
fn no_consecutive_proposals() {
    let mut deps = mock_dependencies();
    let env = mock_env();
    let info = mock_info("admin", &[]);

    let imsg = init_msg();
    instantiate(&mut deps, &env, &info, imsg.clone(), Ok(())).unwrap();
    let _res = raise_proposal(&mut deps, &env, &info, 1, vec![1, 2, 3]).unwrap();
    let res = raise_proposal(&mut deps, &env, &info, 1, vec![1, 2, 3]).unwrap_err();
    match res {
        ContractError::CustomError { .. } => {}
        e => panic!("{:?}", e),
    };
    let current_proposal = deps.app_current_proposal.load(&1).unwrap();
    assert_eq!(current_proposal, 1);
}

#[test]
fn no_pair_for_proposals() {
    let mut deps = mock_dependencies();
    let env = mock_env();
    let info = mock_info("admin", &[]);

    let imsg = init_msg();
    instantiate(&mut deps, &env, &info, imsg.clone(), Ok(())).unwrap();
    let res = raise_proposal(&mut deps, &env, &info, 1, vec![]).unwrap_err();
    match res {
        ContractError::CustomError { .. } => {}
        e => panic!("{:?}", e),
    };
}

#[test]
fn instantiate_multi_foundation_addr() {
    let env = mock_env();
    let mut deps = mock_dependencies();
    let info = mock_info("owner", &[]);

    let mut imsg = init_msg();
    imsg.foundation_addr = vec![
        "fd1".to_string(),
        "fd2".to_ascii_lowercase(),
        "fd3".to_ascii_lowercase(),
        "fd2".to_string(),
    ];
    instantiate(&mut deps, &env, &info, imsg, Ok(())).unwrap();

    let state = deps.state.load().unwrap();
    assert_eq!(state.foundation_addr.len(), 3);
    assert_eq!(
        state.foundation_addr,
        vec!["fd1".to_string(), "fd2".to_ascii_lowercase(), "fd3".to_ascii_lowercase()]
    );
}

#[test]
fn instantiate_foundation_addr_multiple_encodes() {
    let env = mock_env();
    let mut deps = mock_dependencies();
    let info = mock_info("owner", &[]);

    let mut imsg = init_msg();
    imsg.foundation_addr = vec![
        "fd1".to_string(),
        "fd2".to_ascii_lowercase(),
        "fd2".to_string(),
        "fd2".to_lowercase(),
        "fd3".to_string(),
    ];
    instantiate(&mut deps, &env, &info, imsg, Ok(())).unwrap();

    let state = deps.state.load().unwrap();
    assert_eq!(state.foundation_addr.len(), 3);
    assert_eq!(
        state.foundation_addr,
        vec!["fd1".to_string(), "fd2".to_string(), "fd3".to_ascii_lowercase()]
    );
}

#[test]
fn funds_sent_during_raise_proposal() {
    let env = mock_env();
    let mut deps = mock_dependencies();
    let info = mock_info("admin", &coins(100, DENOM));

    let imsg = init_msg();
    instantiate(&mut deps, &env, &info, imsg, Ok(())).unwrap();

    let result = raise_proposal(&mut deps, &env, &info, 1, vec![1, 2, 3]).unwrap_err();
    println!("Now {:?} will print!", result);
    println!("Now {:?} will print!", info);

    match result {
        ContractError::FundsNotAllowed {} => {}
        e => panic!("{:?}", e),
    };
}

#[test]
fn lock_keeps_vtoken_denom() {
    let mut deps = mock_dependencies();
    let env = mock_env();
    let info = mock_info("user1", &coins(100, DENOM));
    instantiate(&mut deps, &env, &info, init_msg(), Ok(())).unwrap();
    handle_lock_nft(&mut deps, &env, &info, 1, LockingPeriod::T1, None).unwrap();
    let vt = deps.vtokens.load(&("user1".to_string(), DENOM.to_string())).unwrap();
    assert_eq!(vt[0].token, coin(100, DENOM));
    assert_eq!(vt[0].vtoken, coin(25, "vTKN"));
}

#[test]
fn withdraw_basic_functionality() {
    let mut deps = mock_dependencies();
    let mut env = mock_env();
    let info = mock_info("sender", &[]);

    let imsg = init_msg();
    instantiate(&mut deps, &env, &info, imsg.clone(), Ok(())).unwrap();

    let info = mock_info("owner", &coins(100, DENOM));
    handle_lock_nft(&mut deps, &env, &info, 1, LockingPeriod::T1, None).unwrap();

    env.block.time = env.block.time.plus_seconds(imsg.t1.period + 1u64);

    let info = mock_info("owner", &[]);
    let res = handle_withdraw(&mut deps, &env, &info, DENOM.to_string()).unwrap();
    assert_eq!(res.messages.len(), 1);
    assert_eq!(res.attributes.len(), 2);
    assert_eq!(
        res.messages[0].msg,
        CosmosMsg::BankSend { to_address: info.sender.to_string(), amount: vec![coin(100, DENOM)] }
    );

    // The product of an amount and a weight.
    let vtoken_balance1 = imsg.t1.weight.mul_amount(90);
    let vtoken_balance2 = imsg.t1.weight.checked_mul_amount(90).unwrap();
    assert_eq!(vtoken_balance1, vtoken_balance2);
}

#[test]
fn withdraw_no_vtokens() {
    let mut deps = mock_dependencies();
    let env = mock_env();
    let info = mock_info("sender", &[]);

    let res = handle_withdraw(&mut deps, &env, &info, DENOM.to_string()).unwrap_err();
    match res {
        ContractError::NotFound { .. } => {}
        e => panic!("{:?}", e),
    };
}

#[test]
fn withdraw_not_unlocked() {
    let mut deps = mock_dependencies();
    let env = mock_env();
    let info = mock_info("owner", &[]);

    let imsg = init_msg();
    instantiate(&mut deps, &env, &info, imsg.clone(), Ok(())).unwrap();

    let res = handle_lock_nft(&mut deps, &env, &info, 1, LockingPeriod::T1, None).unwrap_err();
    match res {
        ContractError::InsufficientFunds { .. } => {}
        e => panic!("{:?}", e),
    };
    let res = handle_withdraw(&mut deps, &env, &info, DENOM.to_string()).unwrap_err();
    match res {
        ContractError::NotFound { .. } => {}
        e => panic!("{:?}", e),
    };
}

#[test]
fn withdraw_period_not_locked() {
    let mut deps = mock_dependencies();
    let env = mock_env();
    let info = mock_info("owner", &[]);

    let imsg = init_msg();
    instantiate(&mut deps, &env, &info, imsg.clone(), Ok(())).unwrap();

    let info = mock_info("owner", &coins(100, DENOM));
    handle_lock_nft(&mut deps, &env, &info, 1, LockingPeriod::T1, None).unwrap();

    let info = mock_info("owner", &[]);
    let res = handle_withdraw(&mut deps, &env, &info, DENOM.to_string()).unwrap_err();
    match res {
        ContractError::NotFound { .. } => {}
        e => panic!("{:?}", e),
    };
}

#[test]
fn withdraw_denom_not_locked() {
    let mut deps = mock_dependencies();
    let env = mock_env();
    let info = mock_info("owner", &[]);

    let imsg = init_msg();
    instantiate(&mut deps, &env, &info, imsg.clone(), Ok(())).unwrap();

    let info = mock_info("owner", &coins(100, DENOM));
    handle_lock_nft(&mut deps, &env, &info, 1, LockingPeriod::T1, None).unwrap();

    let info = mock_info("owner", &[]);
    let res = handle_withdraw(&mut deps, &env, &info, "DNM1".to_string()).unwrap_err();
    match res {
        ContractError::NotFound { .. } => {}
        e => panic!("{:?}", e),
    };
}

#[test]
fn transfer_same_denom() {
    let mut deps = mock_dependencies();
    let env = mock_env();
    let info = mock_info("admin", &[]);

    let imsg = init_msg();
    instantiate(&mut deps, &env, &info, imsg.clone(), Ok(())).unwrap();

    let sender = "sender".to_string();
    let recipient = "recipient".to_string();

    let info = mock_info(&sender, &coins(1000, DENOM));
    handle_lock_nft(&mut deps, &env, &info, 12, LockingPeriod::T1, None).unwrap();

    let info = mock_info(&recipient, &coins(1000, DENOM));
    handle_lock_nft(&mut deps, &env, &info, 12, LockingPeriod::T1, None).unwrap();

    let info = mock_info(&sender, &[]);
    handle_transfer(&mut deps, &env, &info, recipient.clone(), Ok(()), LockingPeriod::T1, DENOM.to_string()).unwrap();

    assert!(deps.vtokens.load(&(sender.clone(), DENOM.to_string())).is_none());

    let recipient_vtokens = deps.vtokens.load(&(recipient.clone(), DENOM.to_string())).unwrap();
    assert_eq!(recipient_vtokens.len(), 2);
    assert_eq!(recipient_vtokens[0].token.amount, 1000);
    assert_eq!(recipient_vtokens[0].token.denom, DENOM.to_string());
    assert_eq!(recipient_vtokens[0].vtoken.amount, 250);
    assert_eq!(recipient_vtokens[0].vtoken.denom, "vTKN".to_string());
    assert_eq!(recipient_vtokens[0].start_time, env.block.time);
    assert_eq!(recipient_vtokens[0].end_time, env.block.time.plus_seconds(imsg.t1.period));
    assert_eq!(recipient_vtokens[1].token.amount, 1000);
    assert_eq!(recipient_vtokens[1].vtoken.amount, 250);
}

fn half() -> Decimal {
    Decimal::from_ratio(100, 200)
}

#[test]
fn test_vote_proposal_without_locking() {
    let mut deps = mock_dependencies();
    let env = mock_env();

    let info = mock_info("voter1", &coins(100, DENOM));
    let imsg = init_msg();
    instantiate(&mut deps, &env, &info, imsg.clone(), Ok(())).unwrap();

    handle_lock_nft(&mut deps, &env, &info, 1, LockingPeriod::T1, None).unwrap();

    let info = mock_info("admin", &[]);
    raise_proposal(&mut deps, &env, &info, 1, vec![1, 2, 3]).unwrap();

    let info = mock_info("voter1", &[]);
    let err = vote_proposal(&mut deps, &env, &info, 1, 1, vec![1], DENOM.to_string(), vec![half()]);
    assert_eq!(
        err,
        Err(ContractError::CustomError { val: "No tokens locked to perform voting on proposals".to_string() })
    );
}

#[test]
fn test_vote_proposal_with_wrong_extended_pair() {
    let mut deps = mock_dependencies();
    let env = mock_env();

    let info = mock_info("voter1", &coins(100, DENOM));
    let imsg = init_msg();
    instantiate(&mut deps, &env, &info, imsg.clone(), Ok(())).unwrap();

    handle_lock_nft(&mut deps, &env, &info, 1, LockingPeriod::T1, None).unwrap();

    let info = mock_info("admin", &[]);
    raise_proposal(&mut deps, &env, &info, 1, vec![1, 2, 3]).unwrap();

    let info = mock_info("voter1", &[]);
    let err = vote_proposal(&mut deps, &env, &info, 1, 1, vec![6], DENOM.to_string(), vec![half()]);
    assert_eq!(
        err,
        Err(ContractError::CustomError { val: "Extended pair does not exist in proposal".to_string() })
    );
}

fn proposal_with_lock() -> (ContractStore, Env) {
    let mut deps = mock_dependencies();
    let env = mock_env();
    let info = mock_info("voter1", &coins(100, DENOM));
    let imsg = init_msg();
    instantiate(&mut deps, &env, &info, imsg, Ok(())).unwrap();
    handle_lock_nft(&mut deps, &env, &info, 1, LockingPeriod::T1, None).unwrap();
    let info = mock_info("admin", &[]);
    raise_proposal(&mut deps, &env, &info, 1, vec![1, 2, 3]).unwrap();
    (deps, env)
}

#[test]
fn test_bribe_proposal() {
    let (mut deps, env) = proposal_with_lock();
    let info = mock_info("voter1", &[coin(200, "bribe1")]);
    bribe_proposal(&mut deps, &env, &info, 1, 1, coin(200, "bribe1")).unwrap();
}

#[test]
fn test_bribe_proposal_wrong_pair() {
    let (mut deps, env) = proposal_with_lock();
    let info = mock_info("voter1", &[coin(200, "bribe1")]);
    let err = bribe_proposal(&mut deps, &env, &info, 1, 6, coin(200, "bribe1"));
    assert_eq!(err, Err(ContractError::CustomError { val: "Invalid Extended pair".to_string() }));
}

#[test]
fn test_bribe_proposal_multiple_denoms() {
    let (mut deps, env) = proposal_with_lock();
    let info = mock_info("voter1", &[coin(200, "bribe1"), coin(200, "bribe2")]);
    let err = bribe_proposal(&mut deps, &env, &info, 1, 1, coin(200, "bribe1"));
    assert_eq!(err, Err(ContractError::CustomError { val: "Multiple denominations are not supported".to_string() }));
}

#[test]
fn test_foundation_emission_no_completed() {
    let (mut deps, env) = proposal_with_lock();
    let info = mock_info("admin", &[coin(200, "bribe1"), coin(200, "bribe2")]);
    let err = emission_foundation(&mut deps, &env, &info, 1);
    assert_eq!(
        err,
        Err(ContractError::CustomError {
            val: "Emission calculation did not take place to initiate foundation calculation".to_string()
        })
    );
}

fn mark_emission_completed(deps: &mut ContractStore) {
    let mut proposal = deps.proposal.load(&1).unwrap();
    proposal.emission_completed = true;
    proposal.foundation_distributed = 10000000000;
    deps.proposal.save(1, proposal, 0);
}

#[test]
fn test_foundation_emission_accept_no_fund() {
    let (mut deps, env) = proposal_with_lock();
    mark_emission_completed(&mut deps);
    let info = mock_info("admin", &[coin(200, "bribe1"), coin(200, "bribe2")]);
    let err = emission_foundation(&mut deps, &env, &info, 1);
    assert_eq!(err, Err(ContractError::CustomError { val: "Funds not accepted".to_string() }));
}

#[test]
fn test_foundation_emission() {
    let (mut deps, env) = proposal_with_lock();
    mark_emission_completed(&mut deps);
    let info = mock_info("admin", &[]);
    let _response = emission_foundation(&mut deps, &env, &info, 1);
}

#[test]
fn test_rebase_formula() {
    let total_locked: u128 = 10000_u128;
    let my_locked: u128 = 222_u128;
    let rebase_amount: u128 = 20000_u128;

    let lock_amount_t1 = Decimal::from_ratio(rebase_amount, total_locked).mul_amount(my_locked);
    assert_eq!(lock_amount_t1, 444_u128);
}

#[test]
fn test_bribe_formula() {
    let vote_weight: u128 = 30_u128;
    let total_vote: u128 = 100_u128;

    let claimable_amount = Decimal::new(vote_weight).div(Decimal::new(total_vote)).mul_amount(500_u128);
    assert_eq!(claimable_amount, 150_u128);
}

#[test]
fn lock_funds_and_vote() {
    let mut env = mock_env();
    let mut deps = mock_dependencies();
    let info = mock_info("user1", &coins(100, DENOM));

    let imsg = init_msg();
    instantiate(&mut deps, &env, &info, imsg.clone(), Ok(())).unwrap();

    handle_lock_nft(&mut deps, &env, &info, 1, LockingPeriod::T1, None).unwrap();

    let user1_vtokens = deps.vtokens.load(&(info.sender.clone(), DENOM.to_string())).unwrap();
    assert_eq!(user1_vtokens.len(), 1);
    assert_eq!(user1_vtokens[0].token, coin(100, DENOM));
    assert_eq!(user1_vtokens[0].vtoken, coin(25, "vTKN"));

    env.block.height += 1;

    let info = mock_info("admin", &[]);
    raise_proposal(&mut deps, &env, &info, 1, vec![1, 2, 3]).unwrap();

    let info = mock_info("user1", &[]);
    let result = vote_proposal(&mut deps, &env, &info, 1, 1, vec![1], DENOM.to_string(), vec![half()]).unwrap();
    assert_eq!(result.messages.len(), 0);
}

#[test]
fn pools_split() {
    let ext_pair: Vec<u64> = vec![1, 2, 3, 4, 1000001, 1000002, 1000003, 1000004];
    let mut extd_pair: Vec<u64> = vec![];
    let mut pool_ids: Vec<u64> = vec![];
    for i in ext_pair {
        match classify_pair(i) {
            PairKind::Vault(v) => extd_pair.push(v),
            PairKind::Pool(p) => pool_ids.push(p),
        }
    }
    assert_eq!(extd_pair, vec![1, 2, 3, 4]);
    assert_eq!(pool_ids, vec![1, 2, 3, 4]);
}

#[test]
fn emission_split() {
    let emission_distributed: u128 = 10000000;
    let total_vote: u128 = 500;
    let pool_vote: u128 = 400;
    let (pools_share, vault_share) = split_emission(pool_vote, emission_distributed, total_vote).unwrap();
    assert_eq!(pools_share, 8000000_u128);
    assert_eq!(vault_share, 2000000_u128);
}

#[test]
fn test_change_vote() {
    let mut env = mock_env();
    let mut deps = mock_dependencies();
    let info = mock_info("user1", &coins(100, DENOM));

    let imsg = init_msg();
    instantiate(&mut deps, &env, &info, imsg.clone(), Ok(())).unwrap();

    handle_lock_nft(&mut deps, &env, &info, 1, LockingPeriod::T2, None).unwrap();

    env.block.height += 1;

    let info = mock_info("admin", &[]);
    raise_proposal(&mut deps, &env, &info, 1, vec![1, 2, 3]).unwrap();

    let info = mock_info("user1", &[]);
    let result = vote_proposal(&mut deps, &env, &info, 1, 1, vec![1], DENOM.to_string(), vec![half()]).unwrap();
    assert_eq!(result.messages.len(), 0);

    let vote_weight = deps.voters_proposal.load(&(info.sender.clone(), 1)).unwrap();
    assert_eq!(vote_weight.votes[0].extended_pair, 1);
    assert_eq!(vote_weight.votes[0].vote_weight, 25u128);

    env.block.height += 1;
    env.block.time = env.block.time.plus_seconds(10);

    vote_proposal(&mut deps, &env, &info, 1, 1, vec![2], DENOM.to_string(), vec![half()]).unwrap();
    let vote_weight = deps.voters_proposal.load(&(info.sender.clone(), 1)).unwrap();
    assert_eq!(vote_weight.votes[0].extended_pair, 2);
    assert_eq!(vote_weight.votes[0].vote_weight, 25u128);
}

#[test]
fn bribe_share_matches_formula() {
    assert_eq!(bribe_share(30, 100, 500), Ok(150));
}

#[test]
fn withdrawable() {
    let mut deps = mock_dependencies();
    let env = mock_env();
    let info = mock_info("sender", &[]);

    let data = vec![
        Vtoken {
            token: coin(1000, DENOM),
            vtoken: coin(0, "vTKN"),
            period: LockingPeriod::T1,
            start_time: env.block.time,
            end_time: env.block.time.plus_seconds(100_000),
            status: Status::Locked,
        },
        Vtoken {
            token: coin(250, DENOM),
            vtoken: coin(0, "vTKN"),
            period: LockingPeriod::T1,
            start_time: Timestamp::from_seconds(0),
            end_time: Timestamp::from_seconds(20),
            status: Status::Locked,
        },
    ];
    deps.vtokens.save((info.sender.clone(), DENOM.to_string()), data, env.block.height);

    let res = query_withdrawable(&deps, &env, info.sender.clone(), Ok(()), DENOM.to_string()).unwrap();
    assert_eq!(res.amount, coin(250, DENOM));
}
