//! The contract's entry points for execute and query messages: each message
//! is checked against what the chain answers about it and handed to its
//! operation.
use crate::contract::{handle_lock_nft, lock_outcome, raise_outcome, raise_proposal};
use crate::delegated::{
    claim_delegated_outcome, claim_rewards_delegated, delegate, delegate_outcome, delegated_protocol_fee_claim,
    excluded_outcome, protocol_fee_outcome, protocol_fees_outcome, undelegate, undelegate_outcome,
    update_excluded_fee_pair, update_protocol_fees, ExcludedPairFacts,
};
use crate::emission::{emission, emission_outcome, foundation_rewards, foundation_rewards_outcome, EmissionFacts};
use crate::env::{Env, EnvModel, MessageInfo, MessageInfoModel};
use crate::error::{custom, missing, Abort, ContractError, ErrorModel, StdError};
use crate::model::Duplicate;
use crate::msg::{ExecuteMsg, IssuedNftResponse, QueryMsg, WithdrawableResponse};
use crate::query::{
    bribe_eligible_result, current_proposal_user_result, delegations_of, emission_proposal_result,
    emission_voting_power_result, issued_nft_result, issued_vtokens_result, proposal_all_up_result, query_admin,
    query_bribe, query_bribe_eligible, query_current_proposal, query_current_proposal_user, query_delegated_stats,
    query_delegation, query_delegator_param, query_emission, query_emission_proposal, query_emission_voting_power,
    query_extendedpairvote, query_is_voted, query_issued_nft, query_issued_supply, query_issued_vtokens,
    query_proposal, query_proposal_all_up, query_proposal_rewards, query_rebase_eligible, query_state, query_user_delegation_all,
    query_vote, query_vtoken_balance, query_withdrawable, rebase_eligible_result, state_result, vtoken_balance_result,
    withdrawable_result, ProjectionFacts,
};
use crate::delegated::delegation_index;
use crate::state::{
    Delegation, DelegationInfo, DelegationStats, Emission, EmissionVaultPool, Proposal, RebaseAllResponse, RewardAllResponse,
    State, TokenSupply, UserDelegationInfo, Vote, VoteResponse, Vtoken,
};
use crate::rebase::{calculate_rebase_reward, rebase_outcome, GovTokenFacts};
use crate::transfer::{handle_transfer, transfer_outcome};
use crate::response::Response;
use crate::rewards::{claim_outcome, claim_rewards};
use crate::state::Coin;
use crate::store::ContractStore;
use crate::voting::{bribe_proposal, bribe_proposal_outcome, vote_outcome, vote_proposal};
use crate::withdraw::{handle_withdraw, withdraw_outcome};
use vstd::prelude::*;

verus! {

/// Offset of the pool ids among the pairs a proposal lists.
pub const POOL_PAIR_OFFSET: u64 = 1000000;

/// What the chain answers to the questions that an execute message raises.
pub struct ChainAnswers {
    /// The governance token of the message's app (for a rebase, of the
    /// proposal's app); a proposal only needs the app to exist.
    pub gov: GovTokenFacts,
    /// The pools of the exchange app, for a proposal.
    pub pools: Result<Vec<u64>, StdError>,
    /// The extended pairs of the app, for a proposal.
    pub ext_pairs: Result<Vec<u64>, StdError>,
    /// Whether the asset of a bribe is whitelisted.
    pub whitelisted: Result<bool, StdError>,
    /// The validation of the recipient of a lock or a transfer.
    pub address_check: Result<(), StdError>,
    /// What an emission needs.
    pub emission: EmissionFacts,
    /// What an update of the pairs excluded from fees needs.
    pub excluded: ExcludedPairFacts,
}

/// The pairs of a new proposal: the app's extended pairs, then the pools of
/// the exchange app shifted by the pool offset; `None` when a shifted id does
/// not fit.
pub open spec fn proposal_pairs(ext: Seq<u64>, pools: Seq<u64>) -> Option<Seq<u64>> {
    if exists|i: int| 0 <= i < pools.len() && #[trigger] pools[i] > u64::MAX - POOL_PAIR_OFFSET {
        None
    } else {
        Some(ext + pools.map_values(|p: u64| (p + POOL_PAIR_OFFSET) as u64))
    }
}

fn shift_pools(pools: &Vec<u64>) -> (r: Option<Vec<u64>>)
    ensures
        match proposal_pairs(Seq::empty(), pools@) {
            Some(s) => r is Some && r->Some_0@ == s,
            None => r is None,
        },
{
    let mut out: Vec<u64> = Vec::new();
    let mut i: usize = 0;
    while i < pools.len()
        invariant
            i <= pools.len(),
            out.len() == i,
            forall|j: int| 0 <= j < i ==> #[trigger] pools@[j] <= u64::MAX - POOL_PAIR_OFFSET,
            forall|j: int| 0 <= j < i ==> #[trigger] out@[j] == pools@[j] + POOL_PAIR_OFFSET,
        decreases pools.len() - i,
    {
        if pools[i] > u64::MAX - POOL_PAIR_OFFSET {
            return None;
        }
        out.push(pools[i] + POOL_PAIR_OFFSET);
        i = i + 1;
    }
    assert(out@ =~= Seq::<u64>::empty() + pools@.map_values(|p: u64| (p + POOL_PAIR_OFFSET) as u64));
    Some(out)
}

/// The governance token's denomination for a vote or a lock, or why there
/// is none: the chain's error, or `missing` when the token is unset.
pub open spec fn gov_token(gov: &GovTokenFacts, missing_msg: Seq<char>) -> Result<Seq<char>, ErrorModel> {
    match gov.gov_token_id {
        Err(e) => Err(ErrorModel::Std(e@)),
        Ok(id) => match gov.gov_token_denom {
            Err(e) => Err(ErrorModel::Std(e@)),
            Ok(d) => if d@.len() == 0 || id == 0 {
                Err(ErrorModel::Custom(missing_msg))
            } else {
                Ok(d@)
            },
        },
    }
}

fn load_gov_token(gov: &GovTokenFacts, missing_msg: &str) -> (r: Result<String, ContractError>)
    ensures
        match gov_token(gov, missing_msg@) {
            Ok(d) => r is Ok && r->Ok_0@ == d,
            Err(e) => r is Err && r->Err_0@ == e,
        },
{
    let id = match &gov.gov_token_id {
        Err(e) => return Err(ContractError::Std(e.copy())),
        Ok(id) => *id,
    };
    let d = match &gov.gov_token_denom {
        Err(e) => return Err(ContractError::Std(e.copy())),
        Ok(d) => d.clone(),
    };
    if d.as_str().is_empty() || id == 0 {
        return Err(ContractError::custom(missing_msg));
    }
    Ok(d)
}

/// The recipient of a lock together with the chain's validation of it.
pub open spec fn checked_recipient(recipient: Option<String>, check: Result<(), StdError>) -> Option<(String, Result<(), StdError>)> {
    match recipient {
        Some(r) => Some((r, check)),
        None => None,
    }
}

/// The outcome of the execute message `msg` from `old` to `new` with answer
/// `r`, given the chain's answers `ans`: the checks of the message itself,
/// then the outcome of its operation.
pub open spec fn execute_outcome(old: &ContractStore, new: &ContractStore, r: Result<Response, ContractError>, env: EnvModel, info: MessageInfoModel, msg: &ExecuteMsg, ans: &ChainAnswers) -> bool {
    let refused = |e: ErrorModel| r is Err && r->Err_0@ == e && ContractStore::agrees(new, old, Set::empty());
    match msg {
        ExecuteMsg::VoteProposal { app_id, proposal_id, extended_pair, ratio } => match gov_token(&ans.gov, "Gov token not found for the app"@) {
            Err(e) => refused(e),
            Ok(denom) => vote_outcome(old, new, r, env, info, *proposal_id, extended_pair@, denom, ratio@),
        },
        ExecuteMsg::RaiseProposal { app_id } => match ans.gov.gov_token_id {
            Err(e) => refused(ErrorModel::Std(e@)),
            Ok(_) => match old.cswap_id.get() {
                None => refused(missing("u64")),
                Some(_) => match ans.pools {
                    Err(e) => refused(ErrorModel::Std(e@)),
                    Ok(pools) => match proposal_pairs(Seq::empty(), pools@) {
                        None => refused(ErrorModel::Aborted(Abort::Overflow)),
                        Some(shifted) => match ans.ext_pairs {
                            Err(e) => refused(ErrorModel::Std(e@)),
                            Ok(ext) => raise_outcome(old, new, r, env, info, *app_id, ext@ + shifted),
                        },
                    },
                },
            },
        },
        ExecuteMsg::Bribe { proposal_id, extended_pair } => if info.funds.len() == 0 {
            refused(ErrorModel::Aborted(Abort::OutOfBounds))
        } else {
            match ans.whitelisted {
                Err(e) => refused(ErrorModel::Std(e@)),
                Ok(found) => if !found {
                    refused(custom("Asset not whitelisted on chain"))
                } else {
                    bribe_proposal_outcome(old, new, r, env, info, *proposal_id, *extended_pair, info.funds[0])
                },
            }
        },
        ExecuteMsg::ClaimReward { app_id, proposal_id } => claim_outcome(old, new, r, info, *app_id, *proposal_id),
        ExecuteMsg::Emission { proposal_id } => emission_outcome(old, new, r, env, info, *proposal_id, &ans.emission),
        ExecuteMsg::Lock { app_id, locking_period, recipient } => match gov_token(&ans.gov, "Gov token not found"@) {
            Err(e) => refused(e),
            Ok(denom) => if info.funds.len() == 0 {
                refused(ErrorModel::Aborted(Abort::OutOfBounds))
            } else if info.funds[0].denom != denom {
                refused(custom("Wrong Deposit token"))
            } else if old.delegation_info.get(info.sender) is Some {
                refused(custom("The delegated address cannot create a lock"))
            } else {
                lock_outcome(old, new, r, env, info, *locking_period, checked_recipient(*recipient, ans.address_check))
            },
        },
        ExecuteMsg::Withdraw { denom } => withdraw_outcome(old, new, r, env, info, denom@),
        ExecuteMsg::Rebase { proposal_id } => rebase_outcome(old, new, r, env, info, *proposal_id, &ans.gov),
        ExecuteMsg::Delegate { delegation_address, denom, ratio } => delegate_outcome(old, new, r, env, info, delegation_address@, denom@, *ratio),
        ExecuteMsg::Undelegate { delegation_address } => undelegate_outcome(old, new, r, env, info, delegation_address@),
        ExecuteMsg::UpdateProtocolFees { delegate_address, fees } => protocol_fees_outcome(old, new, r, env, info, delegate_address@, *fees),
        ExecuteMsg::ClaimRewardsDelegate { delegated_address, proposal_id, app_id } =>
            claim_delegated_outcome(old, new, r, info, delegated_address@, *proposal_id, *app_id),
        ExecuteMsg::UpdateExcludedFeePair { delegate_address, harbor_app_id, cswap_app_id, excluded_fee_pair } =>
            excluded_outcome(old, new, r, env, info, delegate_address@, excluded_fee_pair@, &ans.excluded),
        ExecuteMsg::DelegatedProtocolFeeClaim { delegated_address, app_id, proposal_id } =>
            protocol_fee_outcome(old, new, r, info, delegated_address@, *app_id, *proposal_id),
        ExecuteMsg::Transfer { recipient, locking_period, denom } =>
            transfer_outcome(old, new, r, env, info, recipient@, ans.address_check, *locking_period, denom@),
        ExecuteMsg::UserDelegation { .. } => refused(custom("Invalid message")),
        ExecuteMsg::FoundationRewards { proposal_id } => foundation_rewards_outcome(old, new, r, info, *proposal_id),
    }
}

/// Handles an execute message; `ans` is what the chain answers to the
/// questions the message raises.
pub fn execute(store: &mut ContractStore, env: &Env, info: &MessageInfo, msg: ExecuteMsg, ans: &ChainAnswers) -> (r: Result<Response, ContractError>)
    ensures
        execute_outcome(old(store), final(store), r, env@, info@, &msg, ans),
{
    let ghost m = msg;
    match msg {
        ExecuteMsg::VoteProposal { app_id, proposal_id, extended_pair, ratio } => {
            let denom = load_gov_token(&ans.gov, "Gov token not found for the app")?;
            vote_proposal(store, env, info, app_id, proposal_id, extended_pair, denom, ratio)
        },
        ExecuteMsg::RaiseProposal { app_id } => {
            match &ans.gov.gov_token_id {
                Err(e) => return Err(ContractError::Std(e.copy())),
                Ok(_) => {},
            }
            if store.cswap_id.load().is_none() {
                return Err(ContractError::not_found("u64"));
            }
            let pools = match &ans.pools {
                Err(e) => return Err(ContractError::Std(e.copy())),
                Ok(p) => p,
            };
            let mut shifted = match shift_pools(pools) {
                Some(s) => s,
                None => return Err(ContractError::aborted(Abort::Overflow)),
            };
            let mut ext_pairs = match &ans.ext_pairs {
                Err(e) => return Err(ContractError::Std(e.copy())),
                Ok(x) => crate::model::copy_u64s(x),
            };
            let ghost e0 = ext_pairs@;
            let ghost s0 = shifted@;
            ext_pairs.append(&mut shifted);
            assert(ext_pairs@ == e0 + s0);
            raise_proposal(store, env, info, app_id, ext_pairs)
        },
        ExecuteMsg::Bribe { proposal_id, extended_pair } => {
            if info.funds.len() == 0 {
                return Err(ContractError::aborted(Abort::OutOfBounds));
            }
            let bribe_coin = info.funds[0].duplicate();
            let found = match &ans.whitelisted {
                Err(e) => return Err(ContractError::Std(e.copy())),
                Ok(f) => *f,
            };
            if !found {
                return Err(ContractError::custom("Asset not whitelisted on chain"));
            }
            bribe_proposal(store, env, info, proposal_id, extended_pair, bribe_coin)
        },
        ExecuteMsg::ClaimReward { app_id, proposal_id } => claim_rewards(store, env, info, app_id, proposal_id),
        ExecuteMsg::Emission { proposal_id } => emission(store, env, info, proposal_id, &ans.emission),
        ExecuteMsg::Lock { app_id, locking_period, recipient } => {
            let denom = load_gov_token(&ans.gov, "Gov token not found")?;
            if info.funds.len() == 0 {
                return Err(ContractError::aborted(Abort::OutOfBounds));
            }
            if info.funds[0].denom != denom {
                return Err(ContractError::custom("Wrong Deposit token"));
            }
            if store.delegation_info.load(&info.sender).is_some() {
                return Err(ContractError::custom("The delegated address cannot create a lock"));
            }
            let checked = match recipient {
                Some(r) => Some((r, match &ans.address_check {
                    Ok(()) => Ok(()),
                    Err(e) => Err(e.copy()),
                })),
                None => None,
            };
            handle_lock_nft(store, env, info, app_id, locking_period, checked)
        },
        ExecuteMsg::Withdraw { denom } => handle_withdraw(store, env, info, denom),
        ExecuteMsg::Rebase { proposal_id } => calculate_rebase_reward(store, env, info, proposal_id, &ans.gov),
        ExecuteMsg::Delegate { delegation_address, denom, ratio } => delegate(store, env, info, delegation_address, denom, ratio),
        ExecuteMsg::Undelegate { delegation_address } => undelegate(store, env, info, delegation_address),
        ExecuteMsg::UpdateProtocolFees { delegate_address, fees } => update_protocol_fees(store, env, info, delegate_address, fees),
        ExecuteMsg::ClaimRewardsDelegate { delegated_address, proposal_id, app_id } =>
            claim_rewards_delegated(store, env, info, delegated_address, proposal_id, app_id),
        ExecuteMsg::UpdateExcludedFeePair { delegate_address, harbor_app_id, cswap_app_id, excluded_fee_pair } =>
            update_excluded_fee_pair(store, env, info, delegate_address, harbor_app_id, cswap_app_id, excluded_fee_pair, &ans.excluded),
        ExecuteMsg::DelegatedProtocolFeeClaim { delegated_address, app_id, proposal_id } =>
            delegated_protocol_fee_claim(store, env, info, delegated_address, app_id, proposal_id),
        ExecuteMsg::Transfer { recipient, locking_period, denom } => {
            let check = match &ans.address_check {
                Ok(()) => Ok(()),
                Err(e) => Err(e.copy()),
            };
            handle_transfer(store, env, info, recipient, check, locking_period, denom)
        },
        ExecuteMsg::UserDelegation { .. } => Err(ContractError::custom("Invalid message")),
        ExecuteMsg::FoundationRewards { proposal_id } => foundation_rewards(store, env, info, proposal_id),
    }
}

/// What the chain answers to the questions that a query message raises.
pub struct QueryAnswers {
    /// The validation of the address the query names.
    pub address_check: Result<(), StdError>,
    /// What a projection of an emission needs.
    pub projection: ProjectionFacts,
}

/// The answer of a query, by kind.
pub enum QueryAnswer {
    IssuedNft(IssuedNftResponse),
    IssuedVtokens(Vec<Vtoken>),
    Supply(Option<TokenSupply>),
    CurrentProposal(u64),
    Proposal(Option<Proposal>),
    BribeByProposal(Option<Vec<Coin>>),
    Vote(Option<Vote>),
    ClaimableBribe(Vec<RewardAllResponse>),
    Withdrawable(WithdrawableResponse),
    TotalVTokens(u128),
    State(State),
    Emission(Option<Emission>),
    ExtendedPairVote(Option<u128>),
    HasVoted(bool),
    UserProposalAllUp(Vote),
    Rebase(Vec<RebaseAllResponse>),
    Admin(Option<String>),
    EmissionRewards(Option<EmissionVaultPool>),
    ProjectedEmission(u128),
    CurrentProposalUser(Vec<VoteResponse>),
    DelegationRequest(Option<Delegation>),
    DelegatorParamRequest(Option<DelegationInfo>),
    DelegationStats(Option<DelegationStats>),
    UserDelegationStats(Option<UserDelegationInfo>),
    UserEmissionVoting(u128),
}

/// The answer `r` to the query `msg` is the one its query gives, given the
/// chain's answers `ans`.
pub open spec fn query_outcome(store: &ContractStore, env: EnvModel, msg: &QueryMsg, ans: &QueryAnswers, r: Result<QueryAnswer, ContractError>) -> bool {
    let check = ans.address_check;
    match msg {
        QueryMsg::IssuedNft { address } => match r {
            Ok(QueryAnswer::IssuedNft(v)) => issued_nft_result(store, address@, check, Ok(v)),
            Ok(_) => false,
            Err(e) => issued_nft_result(store, address@, check, Err(e)),
        },
        QueryMsg::IssuedVtokens { address, denom, start_after, limit } => match r {
            Ok(QueryAnswer::IssuedVtokens(v)) => issued_vtokens_result(store, address@, check, denom@, *start_after, *limit, Ok(v)),
            Ok(_) => false,
            Err(e) => issued_vtokens_result(store, address@, check, denom@, *start_after, *limit, Err(e)),
        },
        QueryMsg::VestedTokens { .. } => r is Err && r->Err_0@ == ErrorModel::Aborted(Abort::NotImplemented),
        QueryMsg::Supply { denom } => r matches Ok(QueryAnswer::Supply(v)) && v == store.supply.get(denom@),
        QueryMsg::CurrentProposal { app_id } => r matches Ok(QueryAnswer::CurrentProposal(v)) && v == match store.app_current_proposal.get(*app_id) {
            Some(p) => p,
            None => 0,
        },
        QueryMsg::Proposal { proposal_id } => r matches Ok(QueryAnswer::Proposal(v)) && v.deep_view() == store.proposal.get(*proposal_id),
        QueryMsg::BribeByProposal { proposal_id, extended_pair_id } => r matches Ok(QueryAnswer::BribeByProposal(v))
            && v.deep_view() == store.bribes_by_proposal.get((*proposal_id, *extended_pair_id)),
        QueryMsg::HasVoted { address, proposal_id } => r matches Ok(QueryAnswer::HasVoted(v))
            && v == (store.voters_vote.get((address@, *proposal_id)) == Some(true)),
        QueryMsg::Vote { address, proposal_id } => r matches Ok(QueryAnswer::Vote(v)) && v.deep_view() == store.voters_proposal.get((address@, *proposal_id)),
        QueryMsg::ClaimableBribe { address, app_id } => match r {
            Ok(QueryAnswer::ClaimableBribe(v)) => bribe_eligible_result(store, address@, *app_id, Ok(v)),
            Ok(_) => false,
            Err(e) => bribe_eligible_result(store, address@, *app_id, Err(e)),
        },
        QueryMsg::Withdrawable { address, denom } => match r {
            Ok(QueryAnswer::Withdrawable(v)) => withdrawable_result(store, env, address@, check, denom@, Ok(v)),
            Ok(_) => false,
            Err(e) => withdrawable_result(store, env, address@, check, denom@, Err(e)),
        },
        QueryMsg::TotalVTokens { address, denom, height } => match r {
            Ok(QueryAnswer::TotalVTokens(v)) => vtoken_balance_result(store, env, address@, check, denom@, *height, Ok(v)),
            Ok(_) => false,
            Err(e) => vtoken_balance_result(store, env, address@, check, denom@, *height, Err(e)),
        },
        QueryMsg::State {} => match r {
            Ok(QueryAnswer::State(v)) => state_result(store, Ok(v)),
            Ok(_) => false,
            Err(e) => state_result(store, Err(e)),
        },
        QueryMsg::Emission { app_id } => r matches Ok(QueryAnswer::Emission(v)) && v == store.emission.get(*app_id),
        QueryMsg::ExtendedPairVote { proposal_id, extended_pair_id } => r matches Ok(QueryAnswer::ExtendedPairVote(v))
            && v == store.proposal_vote.get((*proposal_id, *extended_pair_id)),
        QueryMsg::UserProposalAllUp { proposal_id, address } => match r {
            Ok(QueryAnswer::UserProposalAllUp(v)) => proposal_all_up_result(store, address@, check, *proposal_id, Ok(v)),
            Ok(_) => false,
            Err(e) => proposal_all_up_result(store, address@, check, *proposal_id, Err(e)),
        },
        QueryMsg::Rebase { address, app_id, denom } => match r {
            Ok(QueryAnswer::Rebase(v)) => rebase_eligible_result(store, address@, *app_id, denom@, Ok(v)),
            Ok(_) => false,
            Err(e) => rebase_eligible_result(store, address@, *app_id, denom@, Err(e)),
        },
        QueryMsg::Admin {} => r matches Ok(QueryAnswer::Admin(v)) && v.deep_view() == store.admin.get(),
        QueryMsg::EmissionRewards { proposal_id } => r matches Ok(QueryAnswer::EmissionRewards(v))
            && v.deep_view() == store.emission_reward.get(*proposal_id),
        QueryMsg::ProjectedEmission { proposal_id, app_id, gov_token_denom, gov_token_id } => match r {
            Ok(QueryAnswer::ProjectedEmission(v)) => emission_proposal_result(store, *proposal_id, gov_token_denom@, &ans.projection, Ok(v)),
            Ok(_) => false,
            Err(e) => emission_proposal_result(store, *proposal_id, gov_token_denom@, &ans.projection, Err(e)),
        },
        QueryMsg::CurrentProposalUser { app_id, address } => match r {
            Ok(QueryAnswer::CurrentProposalUser(v)) => current_proposal_user_result(store, address@, *app_id, Ok(v)),
            Ok(_) => false,
            Err(e) => current_proposal_user_result(store, address@, *app_id, Err(e)),
        },
        QueryMsg::DelegationRequest { delegated_address, delegator_address, height } => r matches Ok(QueryAnswer::DelegationRequest(v))
            && match delegations_of(store, delegator_address@, *height) {
            None => v is None,
            Some(u) => match delegation_index(u.delegations, delegated_address@) {
                None => v is None,
                Some(i) => v is Some && v->Some_0@ == u.delegations[i],
            },
        },
        QueryMsg::DelegatorParamRequest { delegated_address } => r matches Ok(QueryAnswer::DelegatorParamRequest(v))
            && v.deep_view() == store.delegation_info.get(delegated_address@),
        QueryMsg::DelegationStats { delegated_address, height } => r matches Ok(QueryAnswer::DelegationStats(v)) && v == match height {
            Some(h) => store.delegation_stats.get_at(delegated_address@, *h),
            None => store.delegation_stats.get(delegated_address@),
        },
        QueryMsg::UserDelegationStats { delegator_address, height } => r matches Ok(QueryAnswer::UserDelegationStats(v))
            && v.deep_view() == delegations_of(store, delegator_address@, *height),
        QueryMsg::UserEmissionVoting { address, proposal_id, denom } => match r {
            Ok(QueryAnswer::UserEmissionVoting(v)) => emission_voting_power_result(store, address@, *proposal_id, denom@, Ok(v)),
            Ok(_) => false,
            Err(e) => emission_voting_power_result(store, address@, *proposal_id, denom@, Err(e)),
        },
    }
}

/// Answers a query message; `ans` is what the chain answers to the
/// questions the query raises.
pub fn query(store: &ContractStore, env: &Env, msg: QueryMsg, ans: &QueryAnswers) -> (r: Result<QueryAnswer, ContractError>)
    ensures
        query_outcome(store, env@, &msg, ans, r),
{
    let ghost m = msg;
    let check = match &ans.address_check {
        Ok(()) => Ok(()),
        Err(e) => Err(e.copy()),
    };
    match msg {
        QueryMsg::IssuedNft { address } => match query_issued_nft(store, address, check) {
            Ok(v) => Ok(QueryAnswer::IssuedNft(v)),
            Err(e) => Err(e),
        },
        QueryMsg::IssuedVtokens { address, denom, start_after, limit } => match query_issued_vtokens(store, address, check, denom, start_after, limit) {
            Ok(v) => Ok(QueryAnswer::IssuedVtokens(v)),
            Err(e) => Err(e),
        },
        QueryMsg::VestedTokens { .. } => Err(ContractError::aborted(Abort::NotImplemented)),
        QueryMsg::Supply { denom } => Ok(QueryAnswer::Supply(query_issued_supply(store, denom))),
        QueryMsg::CurrentProposal { app_id } => Ok(QueryAnswer::CurrentProposal(query_current_proposal(store, app_id))),
        QueryMsg::Proposal { proposal_id } => Ok(QueryAnswer::Proposal(query_proposal(store, proposal_id))),
        QueryMsg::BribeByProposal { proposal_id, extended_pair_id } => Ok(QueryAnswer::BribeByProposal(query_bribe(store, proposal_id, extended_pair_id))),
        QueryMsg::HasVoted { address, proposal_id } => Ok(QueryAnswer::HasVoted(query_is_voted(store, address, proposal_id))),
        QueryMsg::Vote { address, proposal_id } => Ok(QueryAnswer::Vote(query_vote(store, address, proposal_id))),
        QueryMsg::ClaimableBribe { address, app_id } => match query_bribe_eligible(store, env, address, app_id) {
            Ok(v) => Ok(QueryAnswer::ClaimableBribe(v)),
            Err(e) => Err(e),
        },
        QueryMsg::Withdrawable { address, denom } => match query_withdrawable(store, env, address, check, denom) {
            Ok(v) => Ok(QueryAnswer::Withdrawable(v)),
            Err(e) => Err(e),
        },
        QueryMsg::TotalVTokens { address, denom, height } => match query_vtoken_balance(store, env, address, check, denom, height) {
            Ok(v) => Ok(QueryAnswer::TotalVTokens(v)),
            Err(e) => Err(e),
        },
        QueryMsg::State {} => match query_state(store) {
            Ok(v) => Ok(QueryAnswer::State(v)),
            Err(e) => Err(e),
        },
        QueryMsg::Emission { app_id } => Ok(QueryAnswer::Emission(query_emission(store, app_id))),
        QueryMsg::ExtendedPairVote { proposal_id, extended_pair_id } => Ok(QueryAnswer::ExtendedPairVote(query_extendedpairvote(store, proposal_id, extended_pair_id))),
        QueryMsg::UserProposalAllUp { proposal_id, address } => match query_proposal_all_up(store, address, check, proposal_id) {
            Ok(v) => Ok(QueryAnswer::UserProposalAllUp(v)),
            Err(e) => Err(e),
        },
        QueryMsg::Rebase { address, app_id, denom } => match query_rebase_eligible(store, address, app_id, denom) {
            Ok(v) => Ok(QueryAnswer::Rebase(v)),
            Err(e) => Err(e),
        },
        QueryMsg::Admin {} => Ok(QueryAnswer::Admin(query_admin(store))),
        QueryMsg::EmissionRewards { proposal_id } => Ok(QueryAnswer::EmissionRewards(query_proposal_rewards(store, proposal_id))),
        QueryMsg::ProjectedEmission { proposal_id, app_id, gov_token_denom, gov_token_id } =>
            match query_emission_proposal(store, proposal_id, app_id, gov_token_denom, gov_token_id, &ans.projection) {
                Ok(v) => Ok(QueryAnswer::ProjectedEmission(v)),
                Err(e) => Err(e),
            },
        QueryMsg::CurrentProposalUser { app_id, address } => match query_current_proposal_user(store, address, app_id) {
            Ok(v) => Ok(QueryAnswer::CurrentProposalUser(v)),
            Err(e) => Err(e),
        },
        QueryMsg::DelegationRequest { delegated_address, delegator_address, height } =>
            Ok(QueryAnswer::DelegationRequest(query_delegation(store, delegated_address, delegator_address, height))),
        QueryMsg::DelegatorParamRequest { delegated_address } => Ok(QueryAnswer::DelegatorParamRequest(query_delegator_param(store, delegated_address))),
        QueryMsg::DelegationStats { delegated_address, height } => Ok(QueryAnswer::DelegationStats(query_delegated_stats(store, delegated_address, height))),
        QueryMsg::UserDelegationStats { delegator_address, height } =>
            Ok(QueryAnswer::UserDelegationStats(query_user_delegation_all(store, delegator_address, height))),
        QueryMsg::UserEmissionVoting { address, proposal_id, denom } => match query_emission_voting_power(store, address, proposal_id, denom) {
            Ok(v) => Ok(QueryAnswer::UserEmissionVoting(v)),
            Err(e) => Err(e),
        },
    }
}

} // verus!
