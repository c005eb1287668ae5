//! Messages that the contract accepts, and the answers of its queries.
use crate::decimal::Decimal;
use crate::state::{
    Coin, DelegationInfo, Emission, LockingPeriod, PeriodWeight, TokenInfo, Vote, Vtoken,
};
use vstd::prelude::*;

verus! {

#[derive(Clone, Debug, PartialEq, Eq)]
pub struct InstantiateMsg {
    pub t1: PeriodWeight,
    pub t2: PeriodWeight,
    pub voting_period: u64,
    pub vesting_contract: String,
    pub foundation_addr: Vec<String>,
    pub foundation_percentage: Decimal,
    pub surplus_asset_id: u64,
    pub emission: Emission,
    pub admin: String,
    pub min_lock_amount: u128,
    pub cswap_id: u64,
}

#[derive(Clone, Debug, PartialEq, Eq)]
pub enum ExecuteMsg {
    VoteProposal { app_id: u64, proposal_id: u64, extended_pair: Vec<u64>, ratio: Vec<Decimal> },
    RaiseProposal { app_id: u64 },
    ClaimReward { app_id: u64, proposal_id: Option<u64> },
    Bribe { proposal_id: u64, extended_pair: u64 },
    Emission { proposal_id: u64 },
    Rebase { proposal_id: u64 },
    Lock { app_id: u64, locking_period: LockingPeriod, recipient: Option<String> },
    Withdraw { denom: String },
    Transfer { recipient: String, locking_period: LockingPeriod, denom: String },
    Delegate { delegation_address: String, denom: String, ratio: Decimal },
    Undelegate { delegation_address: String },
    UpdateProtocolFees { delegate_address: String, fees: Decimal },
    ClaimRewardsDelegate { delegated_address: String, proposal_id: Option<u64>, app_id: u64 },
    UpdateExcludedFeePair {
        delegate_address: String,
        harbor_app_id: u64,
        cswap_app_id: u64,
        excluded_fee_pair: Vec<u64>,
    },
    DelegatedProtocolFeeClaim { delegated_address: String, app_id: u64, proposal_id: u64 },
    UserDelegation { address: String },
    FoundationRewards { proposal_id: u64 },
}

#[derive(Clone, Debug, PartialEq, Eq)]
pub enum QueryMsg {
    /// Query the NFT
    IssuedNft { address: String },
    /// Query the total vtokens issued to a single user.
    IssuedVtokens { address: String, denom: String, start_after: u32, limit: Option<u32> },
    VestedTokens { denom: String },
    Supply { denom: String },
    CurrentProposal { app_id: u64 },
    Proposal { proposal_id: u64 },
    BribeByProposal { proposal_id: u64, extended_pair_id: u64 },
    HasVoted { address: String, proposal_id: u64 },
    Vote { address: String, proposal_id: u64 },
    ClaimableBribe { address: String, app_id: u64 },
    /// Total amount of given denom withdrawable.
    Withdrawable { address: String, denom: String },
    TotalVTokens { address: String, denom: String, height: Option<u64> },
    State {},
    Emission { app_id: u64 },
    ExtendedPairVote { proposal_id: u64, extended_pair_id: u64 },
    UserProposalAllUp { proposal_id: u64, address: String },
    Rebase { address: String, app_id: u64, denom: String },
    Admin {},
    EmissionRewards { proposal_id: u64 },
    ProjectedEmission { proposal_id: u64, app_id: u64, gov_token_denom: String, gov_token_id: u64 },
    CurrentProposalUser { app_id: u64, address: String },
    DelegationRequest { delegated_address: String, delegator_address: String, height: Option<u64> },
    DelegatorParamRequest { delegated_address: String },
    DelegationStats { delegated_address: String, height: Option<u64> },
    UserDelegationStats { delegator_address: String, height: Option<u64> },
    UserEmissionVoting { address: String, proposal_id: u64, denom: String },
}

#[derive(Clone, Debug, PartialEq, Eq)]
pub enum SudoMsg {
    UpdateVestingContract { address: String },
    UpdateEmissionRate { emission_rate: Decimal, app_id: u64 },
    UpdateFoundationInfo { addresses: Vec<String>, foundation_percentage: Decimal },
    UpdateLockingPeriod { t1: PeriodWeight, t2: PeriodWeight },
    UpdateAdmin { admin: String },
    UpdateVotingPeriod { voting_period: u64 },
    AddNewDelegation { delegation_info: DelegationInfo },
    UpdateExistingDelegation { delegation_info: DelegationInfo },
}

#[derive(Clone, Copy, Debug, PartialEq, Eq, Structural)]
pub struct MigrateMsg {
    pub cswap_id: u64,
}

#[derive(Clone, Debug, PartialEq, Eq)]
pub struct IssuedNftResponse {
    pub nft: TokenInfo,
}

#[derive(Clone, Copy, Debug, PartialEq, Eq, Structural)]
pub struct RebaseResponse {
    pub proposal_id: u64,
    pub rebase_amount: u128,
}

#[derive(Clone, Debug, PartialEq, Eq)]
pub struct WithdrawableResponse {
    pub amount: Coin,
}

#[derive(Clone, Debug, PartialEq, Eq)]
pub struct UnlockedTokensResponse {
    pub tokens: Vec<Coin>,
}

#[derive(Clone, Debug, PartialEq, Eq)]
pub struct LockedTokensResponse {
    pub tokens: Vec<Coin>,
}

#[derive(Clone, Debug, PartialEq, Eq)]
pub struct IssuedVtokensResponse {
    pub vtokens: Vec<Vtoken>,
}

#[derive(Clone, Debug, PartialEq, Eq)]
pub struct ProposalVoteRespons {
    pub proposal_pair_data: Vec<Vote>,
}

#[derive(Clone, Debug, PartialEq, Eq)]
pub struct ProposalPairVote {
    pub extended_pair_id: u64,
    pub my_vote: u128,
    pub total_vote: u128,
    pub bribe: Vec<Coin>,
}

} // verus!
