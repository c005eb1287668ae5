use locking_contract::contract::{handle_lock_nft, has_duplicate_elements, instantiate, raise_proposal};
use locking_contract::decimal::{Decimal, Timestamp};
use locking_contract::delegated::{
    claim_rewards_delegated, delegate, delegated_protocol_fee_claim, undelegate, update_excluded_fee_pair,
    update_protocol_fees, ExcludedPairFacts,
};
use locking_contract::dispatch::{execute, query, ChainAnswers, QueryAnswer, QueryAnswers};
use locking_contract::emission::{emission, emission_foundation, EmissionFacts};
use locking_contract::env::{BlockInfo, ContractInfo, Env, MessageInfo};
use locking_contract::error::{Abort, ContractError, StdError};
use locking_contract::msg::{ExecuteMsg, InstantiateMsg, MigrateMsg, QueryMsg, SudoMsg};
use locking_contract::query::{
    query_current_proposal_user, query_emission_voting_power, query_issued_vtokens, query_rebase_eligible,
    query_vtoken_balance, ProjectionFacts,
};
use locking_contract::rebase::{calculate_rebase_reward, GovTokenFacts};
use locking_contract::response::{ComdexMessages, CosmosMsg};
use locking_contract::rewards::{calculate_bribe_reward_proposal, claim_rewards};
use locking_contract::state::{Coin, DelegationInfo, DelegationStats, Emission, LockingPeriod, PeriodWeight};
use locking_contract::store::ContractStore;
use locking_contract::sudo::{migrate, sudo};
use locking_contract::transfer::handle_transfer;
use locking_contract::voting::{bribe_proposal, vote_proposal};
use locking_contract::withdraw::handle_withdraw;

const DENOM: &str = "TKN";

fn env_at(height: u64, nanos: u64) -> Env {
    Env {
        block: BlockInfo { height, time: Timestamp::from_nanos(nanos), chain_id: "cosmos-testnet-14002".to_string() },
        contract: ContractInfo { address: "cosmos2contract".to_string() },
    }
}

fn start_env() -> Env {
    env_at(12_345, 1_571_797_419_879_305_533)
}

fn later(env: &Env, blocks: u64, seconds: u64) -> Env {
    let mut e = env.clone();
    e.block.height += blocks;
    e.block.time = e.block.time.plus_seconds(seconds);
    e
}

fn info(sender: &str, funds: &[Coin]) -> MessageInfo {
    MessageInfo { sender: sender.to_string(), funds: funds.to_vec() }
}

fn coin(amount: u128, denom: &str) -> Coin {
    Coin { denom: denom.to_string(), amount }
}

fn init_msg() -> InstantiateMsg {
    InstantiateMsg {
        t1: PeriodWeight { period: 604_800, weight: Decimal::from_atomics(25, 2).unwrap() },
        t2: PeriodWeight { period: 1_209_600, weight: Decimal::from_atomics(50, 2).unwrap() },
        voting_period: 30000,
        vesting_contract: "vesting_contract".to_string(),
        foundation_addr: vec!["fd1".to_string(), "fd2".to_string()],
        foundation_percentage: Decimal::percent(2),
        surplus_asset_id: 3,
        emission: Emission {
            app_id: 1,
            total_rewards: 200000,
            rewards_pending: 200000,
            emission_rate: Decimal::percent(2),
            distributed_rewards: 0,
        },
        admin: "admin".to_string(),
        min_lock_amount: 1,
        cswap_id: 1,
    }
}

fn facts(surplus: u128) -> EmissionFacts {
    EmissionFacts {
        gov_token_id: Ok(1),
        gov_token_denom: Ok(DENOM.to_string()),
        token_supply: Ok(1000),
        vested_tokens: Ok(0),
        surplus: Ok(coin(surplus, "uusd")),
    }
}

fn gov() -> GovTokenFacts {
    GovTokenFacts { gov_token_id: Ok(1), gov_token_denom: Ok(DENOM.to_string()) }
}

/// A store where user1 locked 100 tokens for the first period, a proposal
/// on pairs 1, 2, 3 was raised a block later and user1 voted half of its
/// power on pair 1, with a bribe of 200 on that pair. Returns the store and
/// the time of the vote.
fn voted_proposal() -> (ContractStore, Env) {
    let mut store = ContractStore::new();
    let env = start_env();
    instantiate(&mut store, &env, &info("admin", &[]), init_msg(), Ok(())).unwrap();
    handle_lock_nft(&mut store, &env, &info("user1", &[coin(100, DENOM)]), 1, LockingPeriod::T1, None).unwrap();
    let env = later(&env, 1, 5);
    raise_proposal(&mut store, &env, &info("admin", &[]), 1, vec![1, 2, 3]).unwrap();
    let env = later(&env, 1, 5);
    vote_proposal(&mut store, &env, &info("user1", &[]), 1, 1, vec![1], DENOM.to_string(), vec![Decimal::from_ratio(1, 2)])
        .unwrap();
    bribe_proposal(&mut store, &env, &info("briber", &[coin(200, "bribe1")]), 1, 1, coin(200, "bribe1")).unwrap();
    (store, env)
}

/// `voted_proposal` after the voting period and the emission.
fn emitted_proposal() -> (ContractStore, Env) {
    let (mut store, env) = voted_proposal();
    let env = later(&env, 1, 30_001);
    emission(&mut store, &env, &info("admin", &[]), 1, &facts(0)).unwrap();
    (store, env)
}

#[test]
fn vote_weight_is_share_of_power() {
    let (store, _) = voted_proposal();
    let vote = store.voters_proposal.load(&("user1".to_string(), 1)).unwrap();
    assert_eq!(vote.voting_power_total, 25);
    assert_eq!(vote.votes[0].vote_weight, 12);
    assert!(vote.votes[0].vote_weight <= vote.voting_power_total);
    let proposal = store.proposal.load(&1).unwrap();
    assert_eq!(proposal.total_voted_weight, 12);
    assert_eq!(store.proposal_vote.load(&(1, 1)), Some(12));
}

#[test]
fn revote_replaces_total() {
    let (mut store, env) = voted_proposal();
    let env = later(&env, 1, 5);
    vote_proposal(&mut store, &env, &info("user1", &[]), 1, 1, vec![2, 3], DENOM.to_string(), vec![Decimal::percent(20), Decimal::percent(80)])
        .unwrap();
    let proposal = store.proposal.load(&1).unwrap();
    // 25 * 20% = 5 and 25 * 80% = 20; the first vote no longer counts.
    assert_eq!(proposal.total_voted_weight, 25);
    assert_eq!(store.proposal_vote.load(&(1, 1)), Some(0));
    assert_eq!(store.proposal_vote.load(&(1, 2)), Some(5));
    assert_eq!(store.proposal_vote.load(&(1, 3)), Some(20));
}

#[test]
fn vote_over_full_ratio_is_refused() {
    let (mut store, env) = voted_proposal();
    let r = vote_proposal(&mut store, &env, &info("user1", &[]), 1, 1, vec![1, 2], DENOM.to_string(), vec![Decimal::percent(60), Decimal::percent(50)]);
    assert_eq!(r, Err(ContractError::CustomError { val: "Ratio cannot be more than 100 %".to_string() }));
}

#[test]
fn bribes_add_up() {
    let (mut store, env) = voted_proposal();
    bribe_proposal(&mut store, &env, &info("briber", &[coin(50, "bribe1")]), 1, 1, coin(50, "bribe1")).unwrap();
    bribe_proposal(&mut store, &env, &info("briber", &[coin(7, "bribe2")]), 1, 1, coin(7, "bribe2")).unwrap();
    let bribes = store.bribes_by_proposal.load(&(1, 1)).unwrap();
    assert_eq!(bribes, vec![coin(250, "bribe1"), coin(7, "bribe2")]);
}

#[test]
fn emission_amounts() {
    let (mut store, env) = voted_proposal();
    let env = later(&env, 1, 30_001);
    let res = emission(&mut store, &env, &info("admin", &[]), 1, &facts(0)).unwrap();
    // Locked ratio 25 / (1000 - 100 + 25); reward 200000 * 2% = 4000.
    let proposal = store.proposal.load(&1).unwrap();
    assert_eq!(proposal.emission_distributed, 3814);
    assert_eq!(proposal.foundation_distributed, 77);
    assert_eq!(proposal.rebase_distributed, 108);
    assert!(proposal.emission_completed);
    let em = store.emission.load(&1).unwrap();
    assert_eq!(em.rewards_pending, 196000);
    assert_eq!(em.distributed_rewards, 4000);
    assert_eq!(em.rewards_pending + em.distributed_rewards, 200000);
    let rewards = store.emission_reward.load(&1).unwrap();
    assert_eq!(rewards.vault_ids, vec![1, 2, 3]);
    assert_eq!(rewards.vault_rewards, vec![3814, 0, 0]);
    assert_eq!(rewards.pool_rewards, Vec::<u128>::new());
    assert_eq!(store.completed_proposals.load(&1), Some(vec![1]));
    assert_eq!(
        res.messages.iter().map(|m| m.msg.clone()).collect::<Vec<_>>(),
        vec![
            CosmosMsg::Custom(ComdexMessages::MsgEmissionRewards {
                app_id: 1,
                amount: 3814,
                extended_pair: vec![1, 2, 3],
                voting_ratio: vec![12, 0, 0],
            }),
            CosmosMsg::Custom(ComdexMessages::MsgRebaseMint { app_id: 1, amount: 108, contract_addr: "cosmos2contract".to_string() }),
            CosmosMsg::Custom(ComdexMessages::MsgFoundationEmission {
                app_id: 1,
                amount: 77,
                foundation_address: vec!["fd1".to_string(), "fd2".to_string()],
            }),
        ]
    );
}

#[test]
fn emission_only_once() {
    let (mut store, env) = emitted_proposal();
    let r = emission(&mut store, &env, &info("admin", &[]), 1, &facts(0));
    assert_eq!(r, Err(ContractError::CustomError { val: "Emission already completed".to_string() }));
}

#[test]
fn emission_before_end_is_refused() {
    let (mut store, env) = voted_proposal();
    let r = emission(&mut store, &env, &info("admin", &[]), 1, &facts(0));
    assert_eq!(
        r,
        Err(ContractError::CustomError { val: "Proposal Voting Period not ended to execute emission for the proposal".to_string() })
    );
}

#[test]
fn emission_by_non_admin_is_refused() {
    let (mut store, env) = voted_proposal();
    let env = later(&env, 1, 30_001);
    let r = emission(&mut store, &env, &info("user1", &[]), 1, &facts(0));
    assert_eq!(r, Err(ContractError::Admin(locking_contract::error::AdminError::NotAdmin {})));
}

#[test]
fn emission_chain_error_is_returned() {
    let (mut store, env) = voted_proposal();
    let env = later(&env, 1, 30_001);
    let mut f = facts(0);
    f.vested_tokens = Err(StdError::GenericErr { msg: "no vesting".to_string() });
    let r = emission(&mut store, &env, &info("admin", &[]), 1, &f);
    assert_eq!(r, Err(ContractError::Std(StdError::GenericErr { msg: "no vesting".to_string() })));
    assert!(!store.proposal.load(&1).unwrap().emission_completed);
}

#[test]
fn foundation_after_emission_is_refused() {
    let (mut store, env) = emitted_proposal();
    let r = emission_foundation(&mut store, &env, &info("admin", &[]), 1);
    assert_eq!(r, Err(ContractError::CustomError { val: "Emission already distributed".to_string() }));
}

#[test]
fn claim_bribe_once() {
    let (mut store, env) = emitted_proposal();
    let res = claim_rewards(&mut store, &env, &info("user1", &[]), 1, Some(1)).unwrap();
    assert_eq!(res.messages[0].msg, CosmosMsg::BankSend { to_address: "user1".to_string(), amount: vec![coin(200, "bribe1")] });
    assert_eq!(store.voters_claimed_proposals.load(&"user1".to_string()), Some(vec![1]));
    let r = claim_rewards(&mut store, &env, &info("user1", &[]), 1, Some(1));
    assert_eq!(r, Err(ContractError::CustomError { val: "Already claimed".to_string() }));
}

#[test]
fn claim_all_then_one() {
    let (mut store, env) = emitted_proposal();
    let res = claim_rewards(&mut store, &env, &info("user1", &[]), 1, None).unwrap();
    assert_eq!(res.messages[0].msg, CosmosMsg::BankSend { to_address: "user1".to_string(), amount: vec![coin(200, "bribe1")] });
    let r = claim_rewards(&mut store, &env, &info("user1", &[]), 1, Some(1));
    assert_eq!(r, Err(ContractError::CustomError { val: "Already claimed".to_string() }));
    let r = claim_rewards(&mut store, &env, &info("user1", &[]), 1, None);
    assert_eq!(r, Err(ContractError::CustomError { val: "No rewards to claim.".to_string() }));
}

#[test]
fn claim_of_open_proposal_is_refused() {
    let (mut store, env) = voted_proposal();
    let r = claim_rewards(&mut store, &env, &info("user1", &[]), 1, Some(1));
    assert_eq!(r, Err(ContractError::CustomError { val: "Proposal not completed".to_string() }));
}

#[test]
fn rebase_relocks_share() {
    let (mut store, env) = emitted_proposal();
    calculate_rebase_reward(&mut store, &env, &info("user1", &[]), 1, &gov()).unwrap();
    let list = store.vtokens.load(&("user1".to_string(), DENOM.to_string())).unwrap();
    assert_eq!(list.len(), 2);
    // 100 locked of 100 in all earn the whole rebase of 108.
    assert_eq!(list[1].token, coin(108, DENOM));
    assert_eq!(list[1].vtoken, coin(27, "vTKN"));
    assert_eq!(list[1].period, LockingPeriod::T1);
    let supply = store.supply.load(&DENOM.to_string()).unwrap();
    assert_eq!(supply.token, 208);
    assert_eq!(supply.vtoken, 52);
    let r = calculate_rebase_reward(&mut store, &env, &info("user1", &[]), 1, &gov());
    assert_eq!(r, Err(ContractError::CustomError { val: "Already claimed rebase".to_string() }));
}

#[test]
fn rebase_without_locks_is_refused() {
    let (mut store, env) = emitted_proposal();
    let r = calculate_rebase_reward(&mut store, &env, &info("user2", &[]), 1, &gov());
    assert_eq!(r, Err(ContractError::CustomError { val: "No locked tokens for users to claim rebase".to_string() }));
}

#[test]
fn rebase_eligible_query() {
    let (store, _) = emitted_proposal();
    let r = query_rebase_eligible(&store, "user1".to_string(), 1, DENOM.to_string()).unwrap();
    assert_eq!(r.len(), 1);
    assert_eq!(r[0].proposal_id, 1);
    assert_eq!(r[0].rebase, 108);
    assert!(!r[0].claimed);
}

#[test]
fn lock_then_withdraw_restores_supply() {
    let mut store = ContractStore::new();
    let env = start_env();
    instantiate(&mut store, &env, &info("admin", &[]), init_msg(), Ok(())).unwrap();
    handle_lock_nft(&mut store, &env, &info("user1", &[coin(100, DENOM)]), 1, LockingPeriod::T2, None).unwrap();
    let early = later(&env, 1, 1_209_600);
    let r = handle_withdraw(&mut store, &early, &info("user1", &[]), DENOM.to_string());
    assert_eq!(r, Err(ContractError::NotFound { msg: "No unlocked tokens found for \"TKN\"".to_string() }));
    let late = later(&env, 1, 1_209_601);
    let res = handle_withdraw(&mut store, &late, &info("user1", &[]), DENOM.to_string()).unwrap();
    assert_eq!(res.messages[0].msg, CosmosMsg::BankSend { to_address: "user1".to_string(), amount: vec![coin(100, DENOM)] });
    let supply = store.supply.load(&DENOM.to_string()).unwrap();
    assert_eq!(supply.token, 0);
    assert_eq!(supply.vtoken, 0);
    assert!(store.vtokens.load(&("user1".to_string(), DENOM.to_string())).is_none());
}

#[test]
fn lock_below_minimum_is_refused() {
    let mut store = ContractStore::new();
    let env = start_env();
    let mut msg = init_msg();
    msg.min_lock_amount = 50;
    instantiate(&mut store, &env, &info("admin", &[]), msg, Ok(())).unwrap();
    let r = handle_lock_nft(&mut store, &env, &info("user1", &[coin(49, DENOM)]), 1, LockingPeriod::T1, None);
    assert_eq!(r, Err(ContractError::CustomError { val: "Lock amount less than minimum lock amount".to_string() }));
    assert!(store.supply.load(&DENOM.to_string()).is_none());
}

#[test]
fn lock_for_invalid_recipient_is_refused() {
    let mut store = ContractStore::new();
    let env = start_env();
    instantiate(&mut store, &env, &info("admin", &[]), init_msg(), Ok(())).unwrap();
    let bad = Err(StdError::GenericErr { msg: "Invalid input".to_string() });
    let r = handle_lock_nft(&mut store, &env, &info("user1", &[coin(10, DENOM)]), 1, LockingPeriod::T1, Some(("x".to_string(), bad)));
    assert_eq!(r, Err(ContractError::Std(StdError::GenericErr { msg: "Invalid input".to_string() })));
}

#[test]
fn transfer_keeps_tokens() {
    let mut store = ContractStore::new();
    let env = start_env();
    instantiate(&mut store, &env, &info("admin", &[]), init_msg(), Ok(())).unwrap();
    handle_lock_nft(&mut store, &env, &info("a", &[coin(100, DENOM)]), 1, LockingPeriod::T1, None).unwrap();
    handle_lock_nft(&mut store, &env, &info("a", &[coin(40, DENOM)]), 1, LockingPeriod::T2, None).unwrap();
    handle_transfer(&mut store, &env, &info("a", &[]), "b".to_string(), Ok(()), LockingPeriod::T2, DENOM.to_string()).unwrap();
    let a = store.vtokens.load(&("a".to_string(), DENOM.to_string())).unwrap();
    let b = store.vtokens.load(&("b".to_string(), DENOM.to_string())).unwrap();
    assert_eq!(a.len(), 1);
    assert_eq!(a[0].token, coin(100, DENOM));
    assert_eq!(b.len(), 1);
    assert_eq!(b[0].token, coin(40, DENOM));
    let nft = store.tokens.load(&"b".to_string()).unwrap();
    assert_eq!(nft.token_id, 2);
    let r = handle_transfer(&mut store, &env, &info("a", &[]), "b".to_string(), Ok(()), LockingPeriod::T2, DENOM.to_string());
    assert_eq!(r, Err(ContractError::NotFound { msg: "No tokens found for denom: \"TKN\" and locking period: T2".to_string() }));
}

#[test]
fn one_open_proposal_then_next_id() {
    let mut store = ContractStore::new();
    let env = start_env();
    instantiate(&mut store, &env, &info("admin", &[]), init_msg(), Ok(())).unwrap();
    let res = raise_proposal(&mut store, &env, &info("admin", &[]), 1, vec![1]).unwrap();
    assert_eq!(res.attributes[1].value, "1".to_string());
    let r = raise_proposal(&mut store, &later(&env, 1, 29_999), &info("admin", &[]), 1, vec![1]);
    assert_eq!(r, Err(ContractError::CustomError { val: "Previous proposal in voting state for the app".to_string() }));
    let res = raise_proposal(&mut store, &later(&env, 1, 30_000), &info("admin", &[]), 1, vec![1]).unwrap();
    assert_eq!(res.attributes[1].value, "2".to_string());
    assert_eq!(store.app_current_proposal.load(&1), Some(2));
}

fn delegation_info(fees: u64, protocol: u64) -> DelegationInfo {
    DelegationInfo {
        delegated_address: "deleg".to_string(),
        delegator_fees: Decimal::percent(fees),
        protocol_fees: Decimal::percent(protocol),
        fee_collector_address: "collector".to_string(),
        excluded_fee_pair: vec![],
    }
}

/// A store with a delegated address and user1's 100 tokens locked a block
/// before `env`.
fn delegation_setup() -> (ContractStore, Env) {
    let mut store = ContractStore::new();
    let env = start_env();
    instantiate(&mut store, &env, &info("admin", &[]), init_msg(), Ok(())).unwrap();
    sudo(&mut store, &env, SudoMsg::AddNewDelegation { delegation_info: delegation_info(10, 5) }, Ok(())).unwrap();
    handle_lock_nft(&mut store, &env, &info("user1", &[coin(100, DENOM)]), 1, LockingPeriod::T1, None).unwrap();
    (store, later(&env, 1, 5))
}

#[test]
fn delegate_needs_stats() {
    let (mut store, env) = delegation_setup();
    let r = delegate(&mut store, &env, &info("user1", &[]), "deleg".to_string(), DENOM.to_string(), Decimal::one());
    assert_eq!(r, Err(ContractError::Aborted { reason: Abort::MissingValue }));
}

#[test]
fn delegate_then_undelegate() {
    let (mut store, env) = delegation_setup();
    store.delegation_stats.save("deleg".to_string(), DelegationStats { total_delegated: 0, total_delegators: 0 }, env.block.height);
    delegate(&mut store, &env, &info("user1", &[]), "deleg".to_string(), DENOM.to_string(), Decimal::one()).unwrap();
    let stats = store.delegation_stats.load(&"deleg".to_string()).unwrap();
    assert_eq!(stats, DelegationStats { total_delegated: 25, total_delegators: 1 });
    let user = store.delegated.load(&"user1".to_string()).unwrap();
    // A first delegation to an address does not count in the total cast.
    assert_eq!(user.total_casted, 0);
    assert_eq!(user.delegations[0].delegated, 25);

    let r = undelegate(&mut store, &later(&env, 1, 86_399), &info("user1", &[]), "deleg".to_string());
    assert_eq!(r, Err(ContractError::CustomError { val: "Yet to reach UnDelegation time".to_string() }));
    undelegate(&mut store, &later(&env, 1, 86_400), &info("user1", &[]), "deleg".to_string()).unwrap();
    let stats = store.delegation_stats.load(&"deleg".to_string()).unwrap();
    assert_eq!(stats, DelegationStats { total_delegated: 0, total_delegators: 0 });
    let user = store.delegated.load(&"user1".to_string()).unwrap();
    assert!(user.delegations.is_empty());
}

#[test]
fn self_delegation_is_refused() {
    let (mut store, env) = delegation_setup();
    let r = delegate(&mut store, &env, &info("deleg", &[]), "deleg".to_string(), DENOM.to_string(), Decimal::one());
    assert_eq!(r, Err(ContractError::CustomError { val: "Sender is not allowed to self-delegated".to_string() }));
}

#[test]
fn protocol_fees_bounded_by_delegator_fees() {
    let (mut store, env) = delegation_setup();
    let r = update_protocol_fees(&mut store, &env, &info("deleg", &[]), "deleg".to_string(), Decimal::percent(11));
    assert_eq!(
        r,
        Err(ContractError::CustomError {
            val: "New Delegator fees cannot be greater than delegator fees nor can be less than 0%".to_string()
        })
    );
    update_protocol_fees(&mut store, &env, &info("deleg", &[]), "deleg".to_string(), Decimal::percent(10)).unwrap();
    assert_eq!(store.delegation_info.load(&"deleg".to_string()).unwrap().protocol_fees, Decimal::percent(10));
}

#[test]
fn excluded_pairs_are_pairs_and_pools() {
    let (mut store, env) = delegation_setup();
    let f = ExcludedPairFacts {
        harbor_app: Ok(()),
        cswap_app: Ok(()),
        ext_pairs: Ok(vec![1, 2, 3000000]),
        pools: Ok(vec![1, 3]),
    };
    // Pools count as pairs once multiplied by the pool offset: 1000000 and
    // 3000000; only 3000000 is also an extended pair.
    let res = update_excluded_fee_pair(&mut store, &env, &info("deleg", &[]), "deleg".to_string(), 1, 2, vec![1, 3000000, 3000000, 1000000], &f)
        .unwrap();
    assert_eq!(store.delegation_info.load(&"deleg".to_string()).unwrap().excluded_fee_pair, vec![3000000]);
    assert_eq!(res.attributes[1].value, "[3000000]".to_string());
}

/// A delegated address votes all its power on pair 1 of a proposal with a
/// bribe of 1000; user1 had delegated all its power to it beforehand.
fn delegated_vote() -> (ContractStore, Env) {
    let mut store = ContractStore::new();
    let env = start_env();
    instantiate(&mut store, &env, &info("admin", &[]), init_msg(), Ok(())).unwrap();
    sudo(&mut store, &env, SudoMsg::AddNewDelegation { delegation_info: delegation_info(10, 5) }, Ok(())).unwrap();
    store.delegation_stats.save("deleg".to_string(), DelegationStats { total_delegated: 0, total_delegators: 0 }, env.block.height);
    handle_lock_nft(&mut store, &env, &info("user1", &[coin(100, DENOM)]), 1, LockingPeriod::T1, None).unwrap();
    handle_lock_nft(&mut store, &env, &info("deleg", &[coin(400, DENOM)]), 1, LockingPeriod::T1, None).unwrap();
    let env = later(&env, 1, 5);
    delegate(&mut store, &env, &info("user1", &[]), "deleg".to_string(), DENOM.to_string(), Decimal::one()).unwrap();
    let env = later(&env, 1, 5);
    raise_proposal(&mut store, &env, &info("admin", &[]), 1, vec![1, 2]).unwrap();
    let env = later(&env, 1, 5);
    vote_proposal(&mut store, &env, &info("deleg", &[]), 1, 1, vec![1], DENOM.to_string(), vec![Decimal::one()]).unwrap();
    bribe_proposal(&mut store, &env, &info("briber", &[coin(1000, "bribe1")]), 1, 1, coin(1000, "bribe1")).unwrap();
    store.completed_proposals.save(1, vec![1], 0);
    (store, later(&env, 1, 30_001))
}

#[test]
fn delegator_claims_share_once() {
    let (mut store, env) = delegated_vote();
    let res = claim_rewards_delegated(&mut store, &env, &info("user1", &[]), "deleg".to_string(), Some(1), 1).unwrap();
    // 1000 less 5% protocol fees is 950; user1 delegated all 25 of 25
    // delegated, keeps 90% of it: 855, and the fee is 95.
    assert_eq!(
        res.messages.iter().map(|m| m.msg.clone()).collect::<Vec<_>>(),
        vec![
            CosmosMsg::BankSend { to_address: "user1".to_string(), amount: vec![coin(855, "bribe1")] },
            CosmosMsg::BankSend { to_address: "collector".to_string(), amount: vec![coin(95, "bribe1")] },
        ]
    );
    let r = claim_rewards_delegated(&mut store, &env, &info("user1", &[]), "deleg".to_string(), Some(1), 1);
    assert_eq!(r, Err(ContractError::CustomError { val: "Already Claimed".to_string() }));
}

#[test]
fn delegator_claim_all_pays_no_fees() {
    let (mut store, env) = delegated_vote();
    let res = claim_rewards_delegated(&mut store, &env, &info("user1", &[]), "deleg".to_string(), None, 1).unwrap();
    assert_eq!(
        res.messages.iter().map(|m| m.msg.clone()).collect::<Vec<_>>(),
        vec![CosmosMsg::BankSend { to_address: "user1".to_string(), amount: vec![coin(855, "bribe1")] }]
    );
    assert_eq!(store.delegator_claimed_proposals.load(&"user1".to_string()), Some(vec![1]));
}

#[test]
fn delegated_address_cannot_claim_as_voter() {
    let (mut store, env) = delegated_vote();
    let r = claim_rewards(&mut store, &env, &info("deleg", &[]), 1, Some(1));
    assert_eq!(r, Err(ContractError::CustomError { val: "Delegated address cannot claim".to_string() }));
}

#[test]
fn protocol_fee_claimed_once() {
    let (mut store, env) = delegated_vote();
    let res = delegated_protocol_fee_claim(&mut store, &env, &info("deleg", &[]), "deleg".to_string(), 1, 1).unwrap();
    assert_eq!(res.messages[0].msg, CosmosMsg::BankSend { to_address: "collector".to_string(), amount: vec![coin(50, "bribe1")] });
    let r = delegated_protocol_fee_claim(&mut store, &env, &info("deleg", &[]), "deleg".to_string(), 1, 1);
    assert_eq!(r, Err(ContractError::CustomError { val: "Voter already claimed".to_string() }));
}

#[test]
fn voting_power_net_of_delegations() {
    let (store, _) = delegated_vote();
    // user1's first delegation is not in its total cast, so nothing is
    // taken off its locked tokens.
    assert_eq!(query_emission_voting_power(&store, "user1".to_string(), 1, DENOM.to_string()), Ok(100));
    assert_eq!(query_emission_voting_power(&store, "deleg".to_string(), 1, DENOM.to_string()), Ok(400));
}

#[test]
fn sudo_updates() {
    let mut store = ContractStore::new();
    let env = start_env();
    instantiate(&mut store, &env, &info("admin", &[]), init_msg(), Ok(())).unwrap();
    sudo(&mut store, &env, SudoMsg::UpdateVotingPeriod { voting_period: 7 }, Ok(())).unwrap();
    assert_eq!(store.state.load().unwrap().voting_period, 7);
    let r = sudo(&mut store, &env, SudoMsg::UpdateEmissionRate { emission_rate: Decimal::percent(101), app_id: 1 }, Ok(()));
    assert_eq!(r, Err(ContractError::CustomError { val: "Emission rate cannot be greater one".to_string() }));
    sudo(
        &mut store,
        &env,
        SudoMsg::UpdateFoundationInfo { addresses: vec!["z".to_string(), "a".to_string(), "z".to_string()], foundation_percentage: Decimal::percent(3) },
        Ok(()),
    )
    .unwrap();
    let st = store.state.load().unwrap();
    assert_eq!(st.foundation_addr, vec!["a".to_string(), "z".to_string()]);
    assert_eq!(st.foundation_percentage, Decimal::percent(3));
    let r = sudo(&mut store, &env, SudoMsg::AddNewDelegation { delegation_info: delegation_info(10, 101) }, Ok(()));
    assert_eq!(
        r,
        Err(ContractError::CustomError { val: "Protocol fees percentage cannot be less than 0 % or greater than 100%".to_string() })
    );
    let r = sudo(&mut store, &env, SudoMsg::UpdateExistingDelegation { delegation_info: delegation_info(10, 5) }, Ok(()));
    assert_eq!(r, Err(ContractError::CustomError { val: "Delegation does not exists".to_string() }));
    sudo(&mut store, &env, SudoMsg::UpdateAdmin { admin: "admin2".to_string() }, Ok(())).unwrap();
    assert_eq!(store.admin.load(), Some("admin2".to_string()));
}

#[test]
fn migrate_checks_version() {
    let mut store = ContractStore::new();
    let env = start_env();
    let r = migrate(&mut store, &env, MigrateMsg { cswap_id: 9 }, Ok(("other".to_string(), "0.1.0".to_string())));
    assert_eq!(r, Err(ContractError::Std(StdError::GenericErr { msg: "Can only upgrade from same type".to_string() })));
    let r = migrate(&mut store, &env, MigrateMsg { cswap_id: 9 }, Ok(("crates.io:locking_contract".to_string(), "0.2.0".to_string())));
    assert_eq!(r, Err(ContractError::Std(StdError::GenericErr { msg: "Cannot upgrade from a newer version".to_string() })));
    migrate(&mut store, &env, MigrateMsg { cswap_id: 9 }, Ok(("crates.io:locking_contract".to_string(), "0.0.9".to_string()))).unwrap();
    assert_eq!(store.cswap_id.load(), Some(9));
}

fn answers() -> ChainAnswers {
    ChainAnswers {
        gov: gov(),
        pools: Ok(vec![4, 5]),
        ext_pairs: Ok(vec![1, 2]),
        whitelisted: Ok(true),
        address_check: Ok(()),
        emission: facts(0),
        excluded: ExcludedPairFacts { harbor_app: Ok(()), cswap_app: Ok(()), ext_pairs: Ok(vec![]), pools: Ok(vec![]) },
    }
}

#[test]
fn execute_raise_lists_pairs_and_pools() {
    let mut store = ContractStore::new();
    let env = start_env();
    instantiate(&mut store, &env, &info("admin", &[]), init_msg(), Ok(())).unwrap();
    execute(&mut store, &env, &info("admin", &[]), ExecuteMsg::RaiseProposal { app_id: 1 }, &answers()).unwrap();
    assert_eq!(store.proposal.load(&1).unwrap().extended_pair, vec![1, 2, 1000004, 1000005]);
}

#[test]
fn execute_lock_checks_token() {
    let mut store = ContractStore::new();
    let env = start_env();
    instantiate(&mut store, &env, &info("admin", &[]), init_msg(), Ok(())).unwrap();
    let msg = ExecuteMsg::Lock { app_id: 1, locking_period: LockingPeriod::T1, recipient: None };
    let r = execute(&mut store, &env, &info("user1", &[coin(10, "other")]), msg.clone(), &answers());
    assert_eq!(r, Err(ContractError::CustomError { val: "Wrong Deposit token".to_string() }));
    let r = execute(&mut store, &env, &info("user1", &[]), msg.clone(), &answers());
    assert_eq!(r, Err(ContractError::Aborted { reason: Abort::OutOfBounds }));
    execute(&mut store, &env, &info("user1", &[coin(10, DENOM)]), msg, &answers()).unwrap();
    assert_eq!(store.supply.load(&DENOM.to_string()).unwrap().token, 10);
}

#[test]
fn execute_bribe_needs_whitelist() {
    let (mut store, env) = voted_proposal();
    let mut a = answers();
    a.whitelisted = Ok(false);
    let r = execute(&mut store, &env, &info("b", &[coin(5, "bribe3")]), ExecuteMsg::Bribe { proposal_id: 1, extended_pair: 1 }, &a);
    assert_eq!(r, Err(ContractError::CustomError { val: "Asset not whitelisted on chain".to_string() }));
}

#[test]
fn execute_transfer_moves_tokens() {
    let mut store = ContractStore::new();
    let env = start_env();
    instantiate(&mut store, &env, &info("admin", &[]), init_msg(), Ok(())).unwrap();
    handle_lock_nft(&mut store, &env, &info("a", &[coin(40, DENOM)]), 1, LockingPeriod::T2, None).unwrap();
    let msg = ExecuteMsg::Transfer { recipient: "b".to_string(), locking_period: LockingPeriod::T2, denom: DENOM.to_string() };
    let mut a = answers();
    a.address_check = Err(StdError::GenericErr { msg: "Invalid input: human address too short".to_string() });
    let r = execute(&mut store, &env, &info("a", &[]), msg.clone(), &a);
    assert_eq!(r, Err(ContractError::Std(StdError::GenericErr { msg: "Invalid input: human address too short".to_string() })));
    let r = execute(&mut store, &env, &info("a", &[]), msg, &answers()).unwrap();
    assert_eq!(r.attributes.len(), 3);
    assert_eq!(store.vtokens.load(&("a".to_string(), DENOM.to_string())), None);
    let b = store.vtokens.load(&("b".to_string(), DENOM.to_string())).unwrap();
    assert_eq!(b.len(), 1);
    assert_eq!(b[0].token, coin(40, DENOM));
}

fn query_answers() -> QueryAnswers {
    QueryAnswers {
        address_check: Ok(()),
        projection: ProjectionFacts { token_supply: Ok(1000), vested_tokens: Ok(0) },
    }
}

#[test]
fn query_dispatch() {
    let (store, env) = voted_proposal();
    match query(&store, &env, QueryMsg::CurrentProposal { app_id: 1 }, &query_answers()) {
        Ok(QueryAnswer::CurrentProposal(p)) => assert_eq!(p, 1),
        _ => panic!("unexpected answer"),
    }
    match query(&store, &env, QueryMsg::ProjectedEmission { proposal_id: 1, app_id: 1, gov_token_denom: DENOM.to_string(), gov_token_id: 1 }, &query_answers()) {
        Ok(QueryAnswer::ProjectedEmission(x)) => assert_eq!(x, 3814),
        _ => panic!("unexpected answer"),
    }
    match query(&store, &env, QueryMsg::VestedTokens { denom: DENOM.to_string() }, &query_answers()) {
        Err(ContractError::Aborted { reason: Abort::NotImplemented }) => {}
        _ => panic!("unexpected answer"),
    }
}

#[test]
fn vtoken_queries() {
    let (store, env) = voted_proposal();
    assert_eq!(query_vtoken_balance(&store, &env, "user1".to_string(), Ok(()), DENOM.to_string(), None), Ok(25));
    assert_eq!(query_vtoken_balance(&store, &env, "user1".to_string(), Ok(()), DENOM.to_string(), Some(12_345)), Ok(0));
    let page = query_issued_vtokens(&store, "user1".to_string(), Ok(()), DENOM.to_string(), 1, None).unwrap();
    assert!(page.is_empty());
    let page = query_issued_vtokens(&store, "user1".to_string(), Ok(()), DENOM.to_string(), 0, Some(100)).unwrap();
    assert_eq!(page.len(), 1);
    let views = query_current_proposal_user(&store, "user1".to_string(), 1).unwrap();
    assert_eq!(views.len(), 3);
    assert_eq!(views[0].user_vote, 12);
    assert_eq!(views[0].total_incentive, vec![coin(200, "bribe1")]);
    assert_eq!(views[1].user_vote, 0);
}

#[test]
fn duplicates_ignore_order() {
    assert!(has_duplicate_elements(&vec![1, 2, 3, 2]));
    assert!(has_duplicate_elements(&vec![2, 2, 1, 3]));
    assert!(!has_duplicate_elements(&vec![3, 1, 2]));
    assert!(!has_duplicate_elements(&vec![1, 2, 3]));
}

#[test]
fn vote_totals_stay_balanced() {
    let mut store = ContractStore::new();
    let env = start_env();
    instantiate(&mut store, &env, &info("admin", &[]), init_msg(), Ok(())).unwrap();
    handle_lock_nft(&mut store, &env, &info("user1", &[coin(100, DENOM)]), 1, LockingPeriod::T1, None).unwrap();
    handle_lock_nft(&mut store, &env, &info("user2", &[coin(200, DENOM)]), 1, LockingPeriod::T2, None).unwrap();
    let env = later(&env, 1, 5);
    raise_proposal(&mut store, &env, &info("admin", &[]), 1, vec![1, 2, 3]).unwrap();
    let env = later(&env, 1, 5);
    let pct = |x: u64| Decimal::percent(x);
    vote_proposal(&mut store, &env, &info("user1", &[]), 1, 1, vec![1, 2], DENOM.to_string(), vec![pct(40), pct(60)]).unwrap();
    vote_proposal(&mut store, &env, &info("user2", &[]), 1, 1, vec![2, 3], DENOM.to_string(), vec![pct(50), pct(50)]).unwrap();
    vote_proposal(&mut store, &env, &info("user1", &[]), 1, 1, vec![3], DENOM.to_string(), vec![pct(100)]).unwrap();
    let r = vote_proposal(&mut store, &env, &info("user2", &[]), 1, 1, vec![2, 2], DENOM.to_string(), vec![pct(50), pct(50)]);
    assert!(r.is_err());
    let total = store.proposal.load(&1).unwrap().total_voted_weight;
    let pairs: u128 = [1u64, 2, 3].iter().map(|e| store.proposal_vote.load(&(1, *e)).unwrap_or(0)).sum();
    let voters: u128 = ["user1", "user2"]
        .iter()
        .map(|v| store.voters_proposal.load(&(v.to_string(), 1)).unwrap().votes.iter().map(|p| p.vote_weight).sum::<u128>())
        .sum();
    // user1: 100 * 0.25 = 25, all on pair 3; user2: 200 * 0.5 = 100, half on 2 and half on 3.
    assert_eq!(total, 125);
    assert_eq!(pairs, 125);
    assert_eq!(voters, 125);
}

#[test]
fn claim_pays_computed_bribes() {
    let (mut store, env) = voted_proposal();
    bribe_proposal(&mut store, &env, &info("briber", &[coin(30, "abribe")]), 1, 1, coin(30, "abribe")).unwrap();
    let env = later(&env, 1, 30_001);
    emission(&mut store, &env, &info("admin", &[]), 1, &facts(0)).unwrap();
    let computed = calculate_bribe_reward_proposal(&store, &env, &info("user1", &[]), 1).unwrap();
    assert_eq!(computed, vec![coin(200, "bribe1"), coin(30, "abribe")]);
    let res = claim_rewards(&mut store, &env, &info("user1", &[]), 1, Some(1)).unwrap();
    assert_eq!(res.messages.len(), 1);
    assert_eq!(res.messages[0].msg, CosmosMsg::BankSend { to_address: "user1".to_string(), amount: vec![coin(30, "abribe"), coin(200, "bribe1")] });
    assert_eq!(store.voters_claim.load(&("user1".to_string(), 1)), Some(true));
    let r = claim_rewards(&mut store, &env, &info("user1", &[]), 1, Some(1));
    assert_eq!(r, Err(ContractError::CustomError { val: "Already claimed".to_string() }));
}

#[test]
fn emission_stays_done() {
    let (mut store, env) = emitted_proposal();
    let p = store.proposal.load(&1).unwrap();
    assert!(p.emission_completed && p.foundation_emission_completed);
    assert_eq!(store.completed_proposals.load(&1), Some(vec![1]));
    let env = later(&env, 1, 5);
    raise_proposal(&mut store, &env, &info("admin", &[]), 1, vec![1, 2]).unwrap();
    vote_proposal(&mut store, &env, &info("user1", &[]), 1, 2, vec![2], DENOM.to_string(), vec![Decimal::percent(10)]).unwrap();
    let r = emission(&mut store, &env, &info("admin", &[]), 1, &facts(0));
    assert_eq!(r, Err(ContractError::CustomError { val: "Emission already completed".to_string() }));
    let r = emission_foundation(&mut store, &env, &info("admin", &[]), 1);
    assert_eq!(r, Err(ContractError::CustomError { val: "Emission already distributed".to_string() }));
}

#[test]
fn execute_foundation_rewards() {
    let (mut store, env) = voted_proposal();
    let env = later(&env, 1, 30_001);
    let msg = ExecuteMsg::FoundationRewards { proposal_id: 1 };
    let r = execute(&mut store, &env, &info("admin", &[]), msg.clone(), &answers());
    assert_eq!(
        r,
        Err(ContractError::CustomError { val: "Emission calculation did not take place to initiate foundation calculation".to_string() })
    );
    emission(&mut store, &env, &info("admin", &[]), 1, &facts(0)).unwrap();
    let r = execute(&mut store, &env, &info("admin", &[]), msg, &answers());
    assert_eq!(r, Err(ContractError::CustomError { val: "Emission already distributed".to_string() }));
}

#[test]
fn bribe_any_listed_pair() {
    let mut store = ContractStore::new();
    let env = start_env();
    instantiate(&mut store, &env, &info("admin", &[]), init_msg(), Ok(())).unwrap();
    let env = later(&env, 1, 5);
    raise_proposal(&mut store, &env, &info("admin", &[]), 1, vec![5, 4, 3, 2, 1]).unwrap();
    for pair in [5u64, 1, 3] {
        bribe_proposal(&mut store, &env, &info("briber", &[coin(10, "bribe1")]), 1, pair, coin(10, "bribe1")).unwrap();
        assert_eq!(store.bribes_by_proposal.load(&(1, pair)), Some(vec![coin(10, "bribe1")]));
    }
    let r = bribe_proposal(&mut store, &env, &info("briber", &[coin(10, "bribe1")]), 1, 6, coin(10, "bribe1"));
    assert_eq!(r, Err(ContractError::CustomError { val: "Invalid Extended pair".to_string() }));
}

#[test]
fn migrate_compares_versions_as_text() {
    let mut store = ContractStore::new();
    let env = start_env();
    let name = "crates.io:locking_contract".to_string();
    let newer = StdError::GenericErr { msg: "Cannot upgrade from a newer version".to_string() };
    for v in ["0.1.0.1", "0.1.1", "0.10", "1", "é"] {
        let r = migrate(&mut store, &env, MigrateMsg { cswap_id: 9 }, Ok((name.clone(), v.to_string())));
        assert_eq!(r, Err(ContractError::Std(newer.clone())), "{}", v);
    }
    for v in ["0.1.0", "0.1", "", "0.0.99"] {
        migrate(&mut store, &env, MigrateMsg { cswap_id: 9 }, Ok((name.clone(), v.to_string()))).unwrap();
    }
}
