//! The data that the contract keeps: locks (vtokens), supplies, proposals,
//! votes, emissions and delegations, each with its mathematical model.
use crate::decimal::{Decimal, Timestamp};
use crate::model::{lemma_deep_view_u128, lemma_deep_view_u64, Duplicate};
use vstd::prelude::*;

verus! {

/// An amount of a token denomination.
#[derive(Clone, Debug, PartialEq, Eq)]
pub struct Coin {
    pub denom: String,
    pub amount: u128,
}

pub struct CoinModel {
    pub denom: Seq<char>,
    pub amount: u128,
}

impl View for Coin {
    type V = CoinModel;

    open spec fn view(&self) -> CoinModel {
        CoinModel { denom: self.denom@, amount: self.amount }
    }
}

impl DeepView for Coin {
    type V = CoinModel;

    open spec fn deep_view(&self) -> CoinModel {
        self@
    }
}

impl Duplicate for Coin {
    fn duplicate(&self) -> (r: Self) {
        Coin { denom: self.denom.clone(), amount: self.amount }
    }
}

impl Coin {
    pub fn new(amount: u128, denom: &str) -> (c: Coin)
        ensures
            c@ == (CoinModel { denom: denom@, amount }),
    {
        Coin { denom: String::from_str(denom), amount }
    }
}

/// The two locking periods.
#[derive(Clone, Copy, Debug, PartialEq, Eq, Structural)]
pub enum LockingPeriod {
    T1,
    T2,
}

#[derive(Clone, Copy, Debug, PartialEq, Eq, Structural)]
pub enum Status {
    /// When the tokens are in the vesting period.
    Locked,
    /// When the tokens have completed the locking period,
    /// the owner is free to retrieve their tokens.
    Unlocked,
}

/// Duration (in seconds) and weight of a locking period.
#[derive(Clone, Copy, Debug, PartialEq, Eq, Structural)]
pub struct PeriodWeight {
    pub period: u64,
    pub weight: Decimal,
}

#[derive(Clone, Debug, PartialEq, Eq)]
pub struct Vtoken {
    /// amount of token being locked
    pub token: Coin,
    /// amount of vtoken created
    pub vtoken: Coin,
    /// Locking period i.e. T1..2
    pub period: LockingPeriod,
    /// Time at which the tokens were locked
    pub start_time: Timestamp,
    /// Point in time after which the tokens can be unlocked
    pub end_time: Timestamp,
    /// Current status of the tokens
    pub status: Status,
}

pub struct VtokenModel {
    pub token: CoinModel,
    pub vtoken: CoinModel,
    pub period: LockingPeriod,
    pub start_time: Timestamp,
    pub end_time: Timestamp,
    pub status: Status,
}

impl View for Vtoken {
    type V = VtokenModel;

    open spec fn view(&self) -> VtokenModel {
        VtokenModel {
            token: self.token@,
            vtoken: self.vtoken@,
            period: self.period,
            start_time: self.start_time,
            end_time: self.end_time,
            status: self.status,
        }
    }
}

impl DeepView for Vtoken {
    type V = VtokenModel;

    open spec fn deep_view(&self) -> VtokenModel {
        self@
    }
}

impl Duplicate for Vtoken {
    fn duplicate(&self) -> (r: Self) {
        Vtoken {
            token: self.token.duplicate(),
            vtoken: self.vtoken.duplicate(),
            period: self.period,
            start_time: self.start_time,
            end_time: self.end_time,
            status: self.status,
        }
    }
}

/// NFT struct for holding the token info
#[derive(Clone, Debug, PartialEq, Eq)]
pub struct TokenInfo {
    /// Owner of the NFT
    pub owner: String,
    /// Unique token id
    pub token_id: u64,
}

pub struct TokenInfoModel {
    pub owner: Seq<char>,
    pub token_id: u64,
}

impl View for TokenInfo {
    type V = TokenInfoModel;

    open spec fn view(&self) -> TokenInfoModel {
        TokenInfoModel { owner: self.owner@, token_id: self.token_id }
    }
}

impl DeepView for TokenInfo {
    type V = TokenInfoModel;

    open spec fn deep_view(&self) -> TokenInfoModel {
        self@
    }
}

impl Duplicate for TokenInfo {
    fn duplicate(&self) -> (r: Self) {
        TokenInfo { owner: self.owner.clone(), token_id: self.token_id }
    }
}

/// Contains the locking periods and the contract-wide parameters.
#[derive(Clone, Debug, PartialEq, Eq)]
pub struct State {
    pub t1: PeriodWeight,
    pub t2: PeriodWeight,
    pub num_tokens: u64,
    pub vesting_contract: String,
    pub foundation_addr: Vec<String>,
    pub foundation_percentage: Decimal,
    pub surplus_asset_id: u64,
    pub voting_period: u64,
    pub min_lock_amount: u128,
}

pub struct StateModel {
    pub t1: PeriodWeight,
    pub t2: PeriodWeight,
    pub num_tokens: u64,
    pub vesting_contract: Seq<char>,
    pub foundation_addr: Seq<Seq<char>>,
    pub foundation_percentage: Decimal,
    pub surplus_asset_id: u64,
    pub voting_period: u64,
    pub min_lock_amount: u128,
}

impl View for State {
    type V = StateModel;

    open spec fn view(&self) -> StateModel {
        StateModel {
            t1: self.t1,
            t2: self.t2,
            num_tokens: self.num_tokens,
            vesting_contract: self.vesting_contract@,
            foundation_addr: self.foundation_addr.deep_view(),
            foundation_percentage: self.foundation_percentage,
            surplus_asset_id: self.surplus_asset_id,
            voting_period: self.voting_period,
            min_lock_amount: self.min_lock_amount,
        }
    }
}

impl DeepView for State {
    type V = StateModel;

    open spec fn deep_view(&self) -> StateModel {
        self@
    }
}

impl Duplicate for State {
    fn duplicate(&self) -> (r: Self) {
        State {
            t1: self.t1,
            t2: self.t2,
            num_tokens: self.num_tokens,
            vesting_contract: self.vesting_contract.clone(),
            foundation_addr: self.foundation_addr.duplicate(),
            foundation_percentage: self.foundation_percentage,
            surplus_asset_id: self.surplus_asset_id,
            voting_period: self.voting_period,
            min_lock_amount: self.min_lock_amount,
        }
    }
}

/// Total locked tokens and issued vtokens of a denomination.
#[derive(Clone, Copy, Debug, PartialEq, Eq, Structural)]
pub struct TokenSupply {
    // total token in the system.
    pub token: u128,
    // total vtoken released, for the corresponding token, in the system
    pub vtoken: u128,
}

#[derive(Clone, Debug, PartialEq, Eq)]
pub struct Proposal {
    pub app_id: u64,
    pub voting_start_time: Timestamp,
    pub voting_end_time: Timestamp,
    pub extended_pair: Vec<u64>,
    pub emission_completed: bool,
    pub rebase_completed: bool,
    pub foundation_emission_completed: bool,
    pub emission_distributed: u128,
    pub rebase_distributed: u128,
    pub foundation_distributed: u128,
    pub total_voted_weight: u128,
    pub total_surplus: Coin,
    pub height: u64,
}

pub struct ProposalModel {
    pub app_id: u64,
    pub voting_start_time: Timestamp,
    pub voting_end_time: Timestamp,
    pub extended_pair: Seq<u64>,
    pub emission_completed: bool,
    pub rebase_completed: bool,
    pub foundation_emission_completed: bool,
    pub emission_distributed: u128,
    pub rebase_distributed: u128,
    pub foundation_distributed: u128,
    pub total_voted_weight: u128,
    pub total_surplus: CoinModel,
    pub height: u64,
}

impl View for Proposal {
    type V = ProposalModel;

    open spec fn view(&self) -> ProposalModel {
        ProposalModel {
            app_id: self.app_id,
            voting_start_time: self.voting_start_time,
            voting_end_time: self.voting_end_time,
            extended_pair: self.extended_pair@,
            emission_completed: self.emission_completed,
            rebase_completed: self.rebase_completed,
            foundation_emission_completed: self.foundation_emission_completed,
            emission_distributed: self.emission_distributed,
            rebase_distributed: self.rebase_distributed,
            foundation_distributed: self.foundation_distributed,
            total_voted_weight: self.total_voted_weight,
            total_surplus: self.total_surplus@,
            height: self.height,
        }
    }
}

impl DeepView for Proposal {
    type V = ProposalModel;

    open spec fn deep_view(&self) -> ProposalModel {
        self@
    }
}

impl Duplicate for Proposal {
    fn duplicate(&self) -> (r: Self) {
        let ep = self.extended_pair.duplicate();
        proof {
            lemma_deep_view_u64(&ep);
            lemma_deep_view_u64(&self.extended_pair);
        }
        Proposal {
            app_id: self.app_id,
            voting_start_time: self.voting_start_time,
            voting_end_time: self.voting_end_time,
            extended_pair: ep,
            emission_completed: self.emission_completed,
            rebase_completed: self.rebase_completed,
            foundation_emission_completed: self.foundation_emission_completed,
            emission_distributed: self.emission_distributed,
            rebase_distributed: self.rebase_distributed,
            foundation_distributed: self.foundation_distributed,
            total_voted_weight: self.total_voted_weight,
            total_surplus: self.total_surplus.duplicate(),
            height: self.height,
        }
    }
}

/// Emission parameters and progress of an app.
#[derive(Clone, Copy, Debug, PartialEq, Eq, Structural)]
pub struct Emission {
    pub app_id: u64,
    pub total_rewards: u128,
    pub rewards_pending: u128,
    pub emission_rate: Decimal,
    pub distributed_rewards: u128,
}

/// The part of a vote cast on one extended pair.
#[derive(Clone, Copy, Debug, PartialEq, Eq, Structural)]
pub struct VotePair {
    pub extended_pair: u64,
    pub vote_ratio: Decimal,
    pub vote_weight: u128,
}

/// The vote of a voter on a proposal.
#[derive(Clone, Debug, PartialEq, Eq)]
pub struct Vote {
    pub voting_power_total: u128,
    pub total_voted_ratio: Decimal,
    pub votes: Vec<VotePair>,
}

pub struct VoteModel {
    pub voting_power_total: u128,
    pub total_voted_ratio: Decimal,
    pub votes: Seq<VotePair>,
}

impl View for Vote {
    type V = VoteModel;

    open spec fn view(&self) -> VoteModel {
        VoteModel {
            voting_power_total: self.voting_power_total,
            total_voted_ratio: self.total_voted_ratio,
            votes: self.votes.deep_view(),
        }
    }
}

impl DeepView for Vote {
    type V = VoteModel;

    open spec fn deep_view(&self) -> VoteModel {
        self@
    }
}

impl Duplicate for Vote {
    fn duplicate(&self) -> (r: Self) {
        Vote {
            voting_power_total: self.voting_power_total,
            total_voted_ratio: self.total_voted_ratio,
            votes: self.votes.duplicate(),
        }
    }
}

/// Voting power delegated by a user to a delegated address.
#[derive(Clone, Debug, PartialEq, Eq)]
pub struct Delegation {
    pub delegated_to: String,
    pub delegated_at: Timestamp,
    pub delegation_end_at: Timestamp,
    pub delegated: u128,
}

pub struct DelegationModel {
    pub delegated_to: Seq<char>,
    pub delegated_at: Timestamp,
    pub delegation_end_at: Timestamp,
    pub delegated: u128,
}

impl View for Delegation {
    type V = DelegationModel;

    open spec fn view(&self) -> DelegationModel {
        DelegationModel {
            delegated_to: self.delegated_to@,
            delegated_at: self.delegated_at,
            delegation_end_at: self.delegation_end_at,
            delegated: self.delegated,
        }
    }
}

impl DeepView for Delegation {
    type V = DelegationModel;

    open spec fn deep_view(&self) -> DelegationModel {
        self@
    }
}

impl Duplicate for Delegation {
    fn duplicate(&self) -> (r: Self) {
        Delegation {
            delegated_to: self.delegated_to.clone(),
            delegated_at: self.delegated_at,
            delegation_end_at: self.delegation_end_at,
            delegated: self.delegated,
        }
    }
}

/// All delegations of a user.
#[derive(Clone, Debug, PartialEq, Eq)]
pub struct UserDelegationInfo {
    pub total_casted: u128,
    pub delegations: Vec<Delegation>,
}

pub struct UserDelegationInfoModel {
    pub total_casted: u128,
    pub delegations: Seq<DelegationModel>,
}

impl View for UserDelegationInfo {
    type V = UserDelegationInfoModel;

    open spec fn view(&self) -> UserDelegationInfoModel {
        UserDelegationInfoModel {
            total_casted: self.total_casted,
            delegations: self.delegations.deep_view(),
        }
    }
}

impl DeepView for UserDelegationInfo {
    type V = UserDelegationInfoModel;

    open spec fn deep_view(&self) -> UserDelegationInfoModel {
        self@
    }
}

impl Duplicate for UserDelegationInfo {
    fn duplicate(&self) -> (r: Self) {
        UserDelegationInfo {
            total_casted: self.total_casted,
            delegations: self.delegations.duplicate(),
        }
    }
}

/// Parameters of an address that accepts delegations.
#[derive(Clone, Debug, PartialEq, Eq)]
pub struct DelegationInfo {
    pub delegated_address: String,
    pub delegator_fees: Decimal,
    pub protocol_fees: Decimal,
    pub fee_collector_address: String,
    pub excluded_fee_pair: Vec<u64>,
}

pub struct DelegationInfoModel {
    pub delegated_address: Seq<char>,
    pub delegator_fees: Decimal,
    pub protocol_fees: Decimal,
    pub fee_collector_address: Seq<char>,
    pub excluded_fee_pair: Seq<u64>,
}

impl View for DelegationInfo {
    type V = DelegationInfoModel;

    open spec fn view(&self) -> DelegationInfoModel {
        DelegationInfoModel {
            delegated_address: self.delegated_address@,
            delegator_fees: self.delegator_fees,
            protocol_fees: self.protocol_fees,
            fee_collector_address: self.fee_collector_address@,
            excluded_fee_pair: self.excluded_fee_pair.deep_view(),
        }
    }
}

impl DeepView for DelegationInfo {
    type V = DelegationInfoModel;

    open spec fn deep_view(&self) -> DelegationInfoModel {
        self@
    }
}

impl Duplicate for DelegationInfo {
    fn duplicate(&self) -> (r: Self) {
        DelegationInfo {
            delegated_address: self.delegated_address.clone(),
            delegator_fees: self.delegator_fees,
            protocol_fees: self.protocol_fees,
            fee_collector_address: self.fee_collector_address.clone(),
            excluded_fee_pair: self.excluded_fee_pair.duplicate(),
        }
    }
}

/// Totals of what has been delegated to a delegated address.
#[derive(Clone, Copy, Debug, PartialEq, Eq, Structural)]
pub struct DelegationStats {
    pub total_delegated: u128,
    pub total_delegators: u64,
}

/// Emission rewards of a proposal, split between vaults and pools.
#[derive(Clone, Debug, PartialEq, Eq)]
pub struct EmissionVaultPool {
    pub app_id: u64,
    pub pool_ids: Vec<u64>,
    pub vault_ids: Vec<u64>,
    pub total_emission_rewards: u128,
    pub pool_rewards: Vec<u128>,
    pub vault_rewards: Vec<u128>,
}

pub struct EmissionVaultPoolModel {
    pub app_id: u64,
    pub pool_ids: Seq<u64>,
    pub vault_ids: Seq<u64>,
    pub total_emission_rewards: u128,
    pub pool_rewards: Seq<u128>,
    pub vault_rewards: Seq<u128>,
}

impl View for EmissionVaultPool {
    type V = EmissionVaultPoolModel;

    open spec fn view(&self) -> EmissionVaultPoolModel {
        EmissionVaultPoolModel {
            app_id: self.app_id,
            pool_ids: self.pool_ids@,
            vault_ids: self.vault_ids@,
            total_emission_rewards: self.total_emission_rewards,
            pool_rewards: self.pool_rewards@,
            vault_rewards: self.vault_rewards@,
        }
    }
}

impl DeepView for EmissionVaultPool {
    type V = EmissionVaultPoolModel;

    open spec fn deep_view(&self) -> EmissionVaultPoolModel {
        self@
    }
}

impl Duplicate for EmissionVaultPool {
    fn duplicate(&self) -> (r: Self) {
        let pool_ids = self.pool_ids.duplicate();
        let vault_ids = self.vault_ids.duplicate();
        let pool_rewards = self.pool_rewards.duplicate();
        let vault_rewards = self.vault_rewards.duplicate();
        proof {
            lemma_deep_view_u64(&pool_ids);
            lemma_deep_view_u64(&self.pool_ids);
            lemma_deep_view_u64(&vault_ids);
            lemma_deep_view_u64(&self.vault_ids);
            lemma_deep_view_u128(&pool_rewards);
            lemma_deep_view_u128(&self.pool_rewards);
            lemma_deep_view_u128(&vault_rewards);
            lemma_deep_view_u128(&self.vault_rewards);
        }
        EmissionVaultPool {
            app_id: self.app_id,
            pool_ids,
            vault_ids,
            total_emission_rewards: self.total_emission_rewards,
            pool_rewards,
            vault_rewards,
        }
    }
}

/// Rewards of a user.
#[derive(Clone, Debug, PartialEq, Eq)]
pub struct Rewards {
    pub bribe: Vec<Coin>,
    pub rebase: Coin,
}

/// Bribes a user may claim for a proposal.
#[derive(Clone, Debug, PartialEq, Eq)]
pub struct RewardAllResponse {
    pub proposal_id: u64,
    pub total_incentive: Vec<Coin>,
    pub claimed: bool,
}

pub struct RewardAllModel {
    pub proposal_id: u64,
    pub total_incentive: Seq<CoinModel>,
    pub claimed: bool,
}

impl View for RewardAllResponse {
    type V = RewardAllModel;

    open spec fn view(&self) -> RewardAllModel {
        RewardAllModel { proposal_id: self.proposal_id, total_incentive: self.total_incentive.deep_view(), claimed: self.claimed }
    }
}

impl DeepView for RewardAllResponse {
    type V = RewardAllModel;

    open spec fn deep_view(&self) -> RewardAllModel {
        self@
    }
}

/// Rebase a user may claim for a proposal.
#[derive(Clone, Copy, Debug, PartialEq, Eq, Structural)]
pub struct RebaseAllResponse {
    pub proposal_id: u64,
    pub rebase: u128,
    pub claimed: bool,
}

/// Votes and bribes of one extended pair of the current proposal.
#[derive(Clone, Debug, PartialEq, Eq)]
pub struct VoteResponse {
    pub pair: u64,
    pub user_vote: u128,
    pub user_vote_ratio: Decimal,
    pub total_incentive: Vec<Coin>,
    pub total_vote: u128,
}

pub struct VoteResponseModel {
    pub pair: u64,
    pub user_vote: u128,
    pub user_vote_ratio: Decimal,
    pub total_incentive: Seq<CoinModel>,
    pub total_vote: u128,
}

impl View for VoteResponse {
    type V = VoteResponseModel;

    open spec fn view(&self) -> VoteResponseModel {
        VoteResponseModel {
            pair: self.pair,
            user_vote: self.user_vote,
            user_vote_ratio: self.user_vote_ratio,
            total_incentive: self.total_incentive.deep_view(),
            total_vote: self.total_vote,
        }
    }
}

impl DeepView for VoteResponse {
    type V = VoteResponseModel;

    open spec fn deep_view(&self) -> VoteResponseModel {
        self@
    }
}

} // verus!

verus! {

impl DeepView for PeriodWeight {
    type V = PeriodWeight;

    open spec fn deep_view(&self) -> PeriodWeight {
        *self
    }
}

impl Duplicate for PeriodWeight {
    fn duplicate(&self) -> (r: Self) {
        *self
    }
}

impl DeepView for TokenSupply {
    type V = TokenSupply;

    open spec fn deep_view(&self) -> TokenSupply {
        *self
    }
}

impl Duplicate for TokenSupply {
    fn duplicate(&self) -> (r: Self) {
        *self
    }
}

impl DeepView for Emission {
    type V = Emission;

    open spec fn deep_view(&self) -> Emission {
        *self
    }
}

impl Duplicate for Emission {
    fn duplicate(&self) -> (r: Self) {
        *self
    }
}

impl DeepView for VotePair {
    type V = VotePair;

    open spec fn deep_view(&self) -> VotePair {
        *self
    }
}

impl Duplicate for VotePair {
    fn duplicate(&self) -> (r: Self) {
        *self
    }
}

impl DeepView for DelegationStats {
    type V = DelegationStats;

    open spec fn deep_view(&self) -> DelegationStats {
        *self
    }
}

impl Duplicate for DelegationStats {
    fn duplicate(&self) -> (r: Self) {
        *self
    }
}

} // verus!
