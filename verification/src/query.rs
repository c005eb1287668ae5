//! Read-only answers about the contract's storage.
use crate::decimal::{Decimal, DECIMAL_FRACTIONAL};
use crate::delegated::{delegation_index, find_delegation};
use crate::emission::{locked_ratio, reward_of, spec_locked_ratio, spec_reward};
use crate::env::{Env, EnvModel};
use crate::error::{missing, Abort, ContractError, ErrorModel, StdError, StdErrorModel};
use crate::model::Duplicate;
use crate::msg::{IssuedNftResponse, WithdrawableResponse};
use crate::rewards::{accumulate, accumulate_votes};
use crate::state::{
    Coin, CoinModel, Delegation, DelegationInfo, DelegationModel, DelegationStats, Emission, EmissionVaultPool,
    LockingPeriod, Proposal, RebaseAllResponse, RewardAllResponse, State, TokenSupply, UserDelegationInfo, Vote,
    VoteResponse, Vtoken, VtokenModel,
};
use crate::store::ContractStore;
use crate::text::{debug_string, debug_text};
use crate::voting::{sum_vtokens, vtoken_power};
use vstd::prelude::*;

verus! {

/// Largest page of vtokens answered at once.
pub const MAX_LIMIT: u32 = 30;

/// Page size when none is asked for.
pub const DEFAULT_LIMIT: u32 = 10;

/// The admin address, if set.
pub fn query_admin(store: &ContractStore) -> (r: Option<String>)
    ensures
        r.deep_view() == store.admin.get(),
{
    store.admin.load()
}

/// The emission parameters of app `app_id`, if stored.
pub fn query_emission(store: &ContractStore, app_id: u64) -> (r: Option<Emission>)
    ensures
        r == store.emission.get(app_id),
{
    store.emission.load(&app_id)
}

/// The total vote on `extended_pair_id` in proposal `proposal_id`, if any.
pub fn query_extendedpairvote(store: &ContractStore, proposal_id: u64, extended_pair_id: u64) -> (r: Option<u128>)
    ensures
        r == store.proposal_vote.get((proposal_id, extended_pair_id)),
{
    store.proposal_vote.load(&(proposal_id, extended_pair_id))
}

/// What `query_vtoken_balance` answers.
pub open spec fn vtoken_balance_result(store: &ContractStore, env: EnvModel, address: Seq<char>, address_check: Result<(), StdError>, denom: Seq<char>, height: Option<u64>, r: Result<u128, ContractError>) -> bool {
    match address_check {
        Err(e) => r is Err && r->Err_0@ == ErrorModel::Std(e@),
        Ok(_) => {
            let h = match height {
                Some(h) => h,
                None => env.height,
            };
            match store.vtokens.get_at((address, denom), h) {
                None => r == Ok::<u128, ContractError>(0),
                Some(l) => if vtoken_power(l) > u128::MAX {
                    r is Err && r->Err_0@ == ErrorModel::Aborted(Abort::Overflow)
                } else {
                    r == Ok::<u128, ContractError>(vtoken_power(l) as u128)
                },
            }
        },
    }
}

/// The vtokens of `address` in `denom` at block `height` (the current block
/// when none is given); `address_check` is the chain's validation of the
/// address.
pub fn query_vtoken_balance(
    store: &ContractStore,
    env: &Env,
    address: String,
    address_check: Result<(), StdError>,
    denom: String,
    height: Option<u64>,
) -> (r: Result<u128, ContractError>)
    ensures
        vtoken_balance_result(store, env@, address@, address_check, denom@, height, r),
{
    if let Err(e) = address_check {
        return Err(ContractError::Std(e));
    }
    let h = match height {
        Some(h) => h,
        None => env.block.height,
    };
    match store.vtokens.load_at_height(&(address, denom), h) {
        None => Ok(0),
        Some(l) => match sum_vtokens(&l) {
            Some(x) => Ok(x),
            None => Err(ContractError::aborted(Abort::Overflow)),
        },
    }
}

/// What `query_state` answers.
pub open spec fn state_result(store: &ContractStore, r: Result<State, ContractError>) -> bool {
    match store.state.get() {
        Some(st) => r is Ok && r->Ok_0@ == st,
        None => r is Err && r->Err_0@ == ErrorModel::Std(StdErrorModel::NotFound("State Not set"@)),
    }
}

/// The contract's parameters.
pub fn query_state(store: &ContractStore) -> (r: Result<State, ContractError>)
    ensures
        state_result(store, r),
{
    match store.state.load() {
        Some(s) => Ok(s),
        None => Err(ContractError::Std(StdError::NotFound { kind: String::from_str("State Not set") })),
    }
}

/// What `query_issued_nft` answers.
pub open spec fn issued_nft_result(store: &ContractStore, address: Seq<char>, address_check: Result<(), StdError>, r: Result<IssuedNftResponse, ContractError>) -> bool {
    match address_check {
        Err(e) => r is Err && r->Err_0@ == ErrorModel::Std(e@),
        Ok(_) => match store.tokens.get(address) {
            Some(t) => r is Ok && r->Ok_0.nft@ == t,
            None => r is Err && r->Err_0@ == ErrorModel::Std(StdErrorModel::NotFound("NFT does not exist for the given address"@)),
        },
    }
}

/// The NFT of `address`; `address_check` is the chain's validation of the
/// address.
pub fn query_issued_nft(store: &ContractStore, address: String, address_check: Result<(), StdError>) -> (r: Result<IssuedNftResponse, ContractError>)
    ensures
        issued_nft_result(store, address@, address_check, r),
{
    if let Err(e) = address_check {
        return Err(ContractError::Std(e));
    }
    match store.tokens.load(&address) {
        Some(nft) => Ok(IssuedNftResponse { nft }),
        None => Err(ContractError::Std(StdError::NotFound { kind: String::from_str("NFT does not exist for the given address") })),
    }
}

/// The size of a page of vtokens: the limit asked for (the default when
/// none), at most the largest page.
pub open spec fn page_size(limit: Option<u32>) -> int {
    let l = match limit {
        Some(l) => l,
        None => DEFAULT_LIMIT,
    };
    if l < MAX_LIMIT {
        l as int
    } else {
        MAX_LIMIT as int
    }
}

/// The page of `l` of `size` elements starting at `start`, or what is left
/// of it.
pub open spec fn page(l: Seq<VtokenModel>, start: int, size: int) -> Seq<VtokenModel> {
    if l.len() <= start {
        seq![]
    } else if start + size >= l.len() {
        l.subrange(start, l.len() as int)
    } else {
        l.subrange(start, start + size)
    }
}

/// What `query_issued_vtokens` answers.
pub open spec fn issued_vtokens_result(store: &ContractStore, address: Seq<char>, address_check: Result<(), StdError>, denom: Seq<char>, start_after: u32, limit: Option<u32>, r: Result<Vec<Vtoken>, ContractError>) -> bool {
    match address_check {
        Err(e) => r is Err && r->Err_0@ == ErrorModel::Std(e@),
        Ok(_) => r is Ok && r->Ok_0.deep_view() == match store.vtokens.get((address, denom)) {
            Some(l) => page(l, start_after as int, page_size(limit)),
            None => seq![],
        },
    }
}

/// The vtokens of `address` in `denom`, a page of at most `limit` of them
/// from index `start_after`; `address_check` is the chain's validation of
/// the address.
pub fn query_issued_vtokens(
    store: &ContractStore,
    address: String,
    address_check: Result<(), StdError>,
    denom: String,
    start_after: u32,
    limit: Option<u32>,
) -> (r: Result<Vec<Vtoken>, ContractError>)
    ensures
        issued_vtokens_result(store, address@, address_check, denom@, start_after, limit, r),
{
    if let Err(e) = address_check {
        return Err(ContractError::Std(e));
    }
    let l = match limit {
        Some(l) => l,
        None => DEFAULT_LIMIT,
    };
    let size: u32 = if l < MAX_LIMIT {
        l
    } else {
        MAX_LIMIT
    };
    let mut out: Vec<Vtoken> = Vec::new();
    match store.vtokens.load(&(address, denom)) {
        None => {
            assert(out.deep_view() =~= Seq::<VtokenModel>::empty());
        },
        Some(val) => {
            let ghost lm = val.deep_view();
            let len = val.len();
            let start = start_after as usize;
            if len <= start {
                assert(out.deep_view() =~= Seq::<VtokenModel>::empty());
            } else {
                let end: usize = if (start as u64) + (size as u64) >= (len as u64) {
                    len
                } else {
                    start + size as usize
                };
                let mut i: usize = start;
                while i < end
                    invariant
                        start <= i <= end <= len,
                        len == val.len(),
                        lm == val.deep_view(),
                        out.deep_view() == lm.subrange(start as int, i as int),
                    decreases end - i,
                {
                    let ghost before = out.deep_view();
                    out.push(val[i].duplicate());
                    proof {
                        assert(out.deep_view() =~= before.push(lm[i as int]));
                        assert(lm.subrange(start as int, i + 1) =~= lm.subrange(start as int, i as int).push(lm[i as int]));
                    }
                    i = i + 1;
                }
            }
        },
    }
    Ok(out)
}

/// The total locked tokens and issued vtokens of `denom`, if any.
pub fn query_issued_supply(store: &ContractStore, denom: String) -> (r: Option<TokenSupply>)
    ensures
        r == store.supply.get(denom@),
{
    store.supply.load(&denom)
}

/// The latest proposal raised for app `app_id`, or zero.
pub fn query_current_proposal(store: &ContractStore, app_id: u64) -> (r: u64)
    ensures
        r == match store.app_current_proposal.get(app_id) {
            Some(p) => p,
            None => 0,
        },
{
    match store.app_current_proposal.load(&app_id) {
        Some(p) => p,
        None => 0,
    }
}

/// Proposal `proposal_id`, if raised.
pub fn query_proposal(store: &ContractStore, proposal_id: u64) -> (r: Option<Proposal>)
    ensures
        r.deep_view() == store.proposal.get(proposal_id),
{
    store.proposal.load(&proposal_id)
}

/// The emission rewards of proposal `proposal_id`, if computed.
pub fn query_proposal_rewards(store: &ContractStore, proposal_id: u64) -> (r: Option<EmissionVaultPool>)
    ensures
        r.deep_view() == store.emission_reward.get(proposal_id),
{
    store.emission_reward.load(&proposal_id)
}

/// The bribes deposited on `extended_pair_id` in proposal `proposal_id`, if
/// any.
pub fn query_bribe(store: &ContractStore, proposal_id: u64, extended_pair_id: u64) -> (r: Option<Vec<Coin>>)
    ensures
        r.deep_view() == store.bribes_by_proposal.get((proposal_id, extended_pair_id)),
{
    store.bribes_by_proposal.load(&(proposal_id, extended_pair_id))
}

/// Whether `address` has voted on proposal `proposal_id`.
pub fn query_is_voted(store: &ContractStore, address: String, proposal_id: u64) -> (r: bool)
    ensures
        r == (store.voters_vote.get((address@, proposal_id)) == Some(true)),
{
    match store.voters_vote.load(&(address, proposal_id)) {
        Some(b) => b,
        None => false,
    }
}

/// What `query_proposal_all_up` answers.
pub open spec fn proposal_all_up_result(store: &ContractStore, address: Seq<char>, address_check: Result<(), StdError>, proposal_id: u64, r: Result<Vote, ContractError>) -> bool {
    match address_check {
        Err(e) => r is Err && r->Err_0@ == ErrorModel::Std(e@),
        Ok(_) => match store.voters_proposal.get((address, proposal_id)) {
            Some(v) => r is Ok && r->Ok_0@ == v,
            None => r is Err && r->Err_0@ == ErrorModel::Aborted(Abort::MissingValue),
        },
    }
}

/// The vote of `address` on proposal `proposal_id`; `address_check` is the
/// chain's validation of the address. The vote must exist.
pub fn query_proposal_all_up(store: &ContractStore, address: String, address_check: Result<(), StdError>, proposal_id: u64) -> (r: Result<Vote, ContractError>)
    ensures
        proposal_all_up_result(store, address@, address_check, proposal_id, r),
{
    if let Err(e) = address_check {
        return Err(ContractError::Std(e));
    }
    match store.voters_proposal.load(&(address, proposal_id)) {
        Some(v) => Ok(v),
        None => Err(ContractError::aborted(Abort::MissingValue)),
    }
}

/// The vote of `address` on proposal `proposal_id`, if any.
pub fn query_vote(store: &ContractStore, address: String, proposal_id: u64) -> (r: Option<Vote>)
    ensures
        r.deep_view() == store.voters_proposal.get((address@, proposal_id)),
{
    store.voters_proposal.load(&(address, proposal_id))
}

/// Sum of the locked amounts of the vtokens of `l` in `denom` whose period
/// has ended before `now`.
pub open spec fn withdrawable_sum(l: Seq<VtokenModel>, denom: Seq<char>, now: u64) -> int
    decreases l.len(),
{
    if l.len() == 0 {
        0
    } else {
        withdrawable_sum(l.drop_last(), denom, now) + if l.last().token.denom == denom && l.last().end_time.nanos < now {
            l.last().token.amount as int
        } else {
            0
        }
    }
}

proof fn lemma_withdrawable_grows(l: Seq<VtokenModel>, denom: Seq<char>, now: u64, i: int)
    requires
        0 <= i <= l.len(),
    ensures
        withdrawable_sum(l.subrange(0, i), denom, now) <= withdrawable_sum(l, denom, now),
    decreases l.len() - i,
{
    if i < l.len() {
        lemma_withdrawable_grows(l, denom, now, i + 1);
        assert(l.subrange(0, i + 1).drop_last() =~= l.subrange(0, i));
    } else {
        assert(l.subrange(0, i) =~= l);
    }
}

/// What `query_withdrawable` answers.
pub open spec fn withdrawable_result(store: &ContractStore, env: EnvModel, address: Seq<char>, address_check: Result<(), StdError>, denom: Seq<char>, r: Result<WithdrawableResponse, ContractError>) -> bool {
    match address_check {
        Err(e) => r is Err && r->Err_0@ == ErrorModel::Std(e@),
        Ok(_) => match store.vtokens.get((address, denom)) {
            None => r is Err && r->Err_0@ == ErrorModel::Std(StdErrorModel::NotFound("No token found for "@ + debug_text(denom))),
            Some(l) => if withdrawable_sum(l, denom, env.time.nanos) > u128::MAX {
                r is Err && r->Err_0@ == ErrorModel::Aborted(Abort::Overflow)
            } else {
                r is Ok && r->Ok_0.amount@ == (CoinModel { denom: denom, amount: withdrawable_sum(l, denom, env.time.nanos) as u128 })
            },
        },
    }
}

/// The tokens of `address` in `denom` that can be withdrawn now;
/// `address_check` is the chain's validation of the address.
pub fn query_withdrawable(store: &ContractStore, env: &Env, address: String, address_check: Result<(), StdError>, denom: String) -> (r: Result<WithdrawableResponse, ContractError>)
    ensures
        withdrawable_result(store, env@, address@, address_check, denom@, r),
{
    if let Err(e) = address_check {
        return Err(ContractError::Std(e));
    }
    let vtokens = match store.vtokens.load(&(address, denom.clone())) {
        Some(v) => v,
        None => {
            let mut kind = String::from_str("No token found for ");
            let d = debug_string(&denom);
            kind.append(d.as_str());
            return Err(ContractError::Std(StdError::NotFound { kind }));
        },
    };
    let ghost l = vtokens.deep_view();
    let now = env.block.time.nanos;
    let mut total: u128 = 0;
    let mut i: usize = 0;
    while i < vtokens.len()
        invariant
            i <= vtokens.len(),
            l == vtokens.deep_view(),
            now == env@.time.nanos,
            address_check is Ok,
            store.vtokens.get((address@, denom@)) == Some(l),
            total == withdrawable_sum(l.subrange(0, i as int), denom@, now),
        decreases vtokens.len() - i,
    {
        proof {
            assert(l.subrange(0, i + 1).drop_last() =~= l.subrange(0, i as int));
            lemma_withdrawable_grows(l, denom@, now, i + 1);
        }
        assert(vtokens[i as int]@ == l[i as int]);
        if vtokens[i].token.denom == denom && vtokens[i].end_time.nanos < now {
            assert(withdrawable_sum(l.subrange(0, i + 1), denom@, now) == total + vtokens[i as int].token.amount);
            total = match total.checked_add(vtokens[i].token.amount) {
                Some(t) => t,
                None => return Err(ContractError::aborted(Abort::Overflow)),
            };
        }
        i = i + 1;
    }
    proof {
        assert(l.subrange(0, vtokens.len() as int) =~= l);
    }
    Ok(WithdrawableResponse { amount: Coin { denom, amount: total } })
}

/// The delegations of `delegator` at block `height`, or now when no height
/// is given.
pub open spec fn delegations_of(store: &ContractStore, delegator: Seq<char>, height: Option<u64>) -> Option<crate::state::UserDelegationInfoModel> {
    match height {
        Some(h) => store.delegated.get_at(delegator, h),
        None => store.delegated.get(delegator),
    }
}

fn load_delegations(store: &ContractStore, delegator: &String, height: Option<u64>) -> (r: Option<UserDelegationInfo>)
    ensures
        r.deep_view() == delegations_of(store, delegator@, height),
{
    match height {
        Some(h) => store.delegated.load_at_height(delegator, h),
        None => store.delegated.load(delegator),
    }
}

/// The delegation of `delegator_address` to `delegated_address`, at block
/// `height` or now.
pub fn query_delegation(store: &ContractStore, delegated_address: String, delegator_address: String, height: Option<u64>) -> (r: Option<Delegation>)
    ensures
        match delegations_of(store, delegator_address@, height) {
            None => r is None,
            Some(u) => match delegation_index(u.delegations, delegated_address@) {
                None => r is None,
                Some(i) => r is Some && r->Some_0@ == u.delegations[i],
            },
        },
{
    let user = match load_delegations(store, &delegator_address, height) {
        Some(u) => u,
        None => return None,
    };
    match find_delegation(&user.delegations, &delegated_address) {
        Some(i) => {
            assert(user.delegations[i as int]@ == user.delegations.deep_view()[i as int]);
            Some(user.delegations[i].duplicate())
        },
        None => None,
    }
}

/// The parameters of the delegated address `delegated_address`, if any.
pub fn query_delegator_param(store: &ContractStore, delegated_address: String) -> (r: Option<DelegationInfo>)
    ensures
        r.deep_view() == store.delegation_info.get(delegated_address@),
{
    store.delegation_info.load(&delegated_address)
}

/// The totals delegated to `delegated_address`, at block `height` or now.
pub fn query_delegated_stats(store: &ContractStore, delegated_address: String, height: Option<u64>) -> (r: Option<DelegationStats>)
    ensures
        r == match height {
            Some(h) => store.delegation_stats.get_at(delegated_address@, h),
            None => store.delegation_stats.get(delegated_address@),
        },
{
    match height {
        Some(h) => store.delegation_stats.load_at_height(&delegated_address, h),
        None => store.delegation_stats.load(&delegated_address),
    }
}

/// All delegations of `delegator_address`, at block `height` or now.
pub fn query_user_delegation_all(store: &ContractStore, delegator_address: String, height: Option<u64>) -> (r: Option<UserDelegationInfo>)
    ensures
        r.deep_view() == delegations_of(store, delegator_address@, height),
{
    load_delegations(store, &delegator_address, height)
}

/// What the chain answers for a projection of the emission of a proposal:
/// the total supply of the governance token and the tokens still vesting.
pub struct ProjectionFacts {
    pub token_supply: Result<u64, StdError>,
    pub vested_tokens: Result<u128, StdError>,
}

/// The emission that proposal `pid` would distribute to vaults and pools,
/// with the governance token `denom`, or why it cannot be projected.
pub open spec fn spec_projected_emission(store: &ContractStore, pid: u64, denom: Seq<char>, facts: &ProjectionFacts) -> Result<u128, ErrorModel> {
    match store.proposal.get(pid) {
        None => Err(missing("locking_contract::state::Proposal")),
        Some(p) => match store.supply.get_at(denom, p.height) {
            None => Err(ErrorModel::Aborted(Abort::MissingValue)),
            Some(supply) => match facts.token_supply {
                Err(e) => Err(ErrorModel::Std(e@)),
                Ok(total_weight) => match store.state.get() {
                    None => Err(missing("locking_contract::state::State")),
                    Some(st) => match facts.vested_tokens {
                        Err(e) => Err(ErrorModel::Std(e@)),
                        Ok(vested) => match spec_locked_ratio(total_weight, vested, supply) {
                            Err(a) => Err(ErrorModel::Aborted(a)),
                            Ok(locked) => match store.emission.get(p.app_id) {
                                None => Err(missing("locking_contract::state::Emission")),
                                Some(em) => match spec_reward(em, locked) {
                                    Err(a) => Err(ErrorModel::Aborted(a)),
                                    Ok((_, effective)) => match crate::decimal::spec_multiply_ratio(effective, st.foundation_percentage.atomics, DECIMAL_FRACTIONAL) {
                                        None => Err(ErrorModel::Aborted(Abort::Overflow)),
                                        Some(foundation) => if foundation > effective {
                                            Err(ErrorModel::Aborted(Abort::Overflow))
                                        } else {
                                            Ok((effective - foundation) as u128)
                                        },
                                    },
                                },
                            },
                        },
                    },
                },
            },
        },
    }
}

/// What `query_emission_proposal` answers.
pub open spec fn emission_proposal_result(store: &ContractStore, proposal_id: u64, gov_token_denom: Seq<char>, facts: &ProjectionFacts, r: Result<u128, ContractError>) -> bool {
    match spec_projected_emission(store, proposal_id, gov_token_denom, facts) {
        Ok(x) => r == Ok::<u128, ContractError>(x),
        Err(e) => r is Err && r->Err_0@ == e,
    }
}

/// The emission that proposal `proposal_id` would distribute to vaults and
/// pools (see [`spec_projected_emission`]); `facts` is what the chain answers
/// about the governance token `gov_token_denom` of app `app_id`.
pub fn query_emission_proposal(
    store: &ContractStore,
    proposal_id: u64,
    _app_id: u64,
    gov_token_denom: String,
    _gov_token_id: u64,
    facts: &ProjectionFacts,
) -> (r: Result<u128, ContractError>)
    ensures
        emission_proposal_result(store, proposal_id, gov_token_denom@, facts, r),
{
    let proposal = match store.proposal.load(&proposal_id) {
        Some(p) => p,
        None => return Err(ContractError::not_found("locking_contract::state::Proposal")),
    };
    let supply = match store.supply.load_at_height(&gov_token_denom, proposal.height) {
        Some(s) => s,
        None => return Err(ContractError::aborted(Abort::MissingValue)),
    };
    let total_weight = match &facts.token_supply {
        Ok(w) => *w,
        Err(e) => return Err(ContractError::Std(e.copy())),
    };
    let state = match store.state.load() {
        Some(s) => s,
        None => return Err(ContractError::not_found("locking_contract::state::State")),
    };
    let vested = match &facts.vested_tokens {
        Ok(v) => *v,
        Err(e) => return Err(ContractError::Std(e.copy())),
    };
    let locked = match locked_ratio(total_weight, vested, supply) {
        Ok(l) => l,
        Err(a) => return Err(ContractError::aborted(a)),
    };
    let emission = match store.emission.load(&proposal.app_id) {
        Some(e) => e,
        None => return Err(ContractError::not_found("locking_contract::state::Emission")),
    };
    let (_, effective) = match reward_of(&emission, locked) {
        Ok(p) => p,
        Err(a) => return Err(ContractError::aborted(a)),
    };
    let foundation = match state.foundation_percentage.checked_mul_amount(effective) {
        Some(f) => f,
        None => return Err(ContractError::aborted(Abort::Overflow)),
    };
    if foundation > effective {
        return Err(ContractError::aborted(Abort::Overflow));
    }
    Ok(effective - foundation)
}

/// For each proposal of `props` that `address` voted on, the bribes its
/// vote earned and whether it has claimed them.
pub open spec fn bribe_rewards_over(store: &ContractStore, address: Seq<char>, props: Seq<u64>) -> Result<Seq<crate::state::RewardAllModel>, ErrorModel>
    decreases props.len(),
{
    if props.len() == 0 {
        Ok(seq![])
    } else {
        match bribe_rewards_over(store, address, props.drop_last()) {
            Err(e) => Err(e),
            Ok(acc) => {
                let pid = props.last();
                match store.voters_proposal.get((address, pid)) {
                    None => Ok(acc),
                    Some(v) => match accumulate_votes(store, pid, seq![], v.votes, None) {
                        Err(e) => Err(e),
                        Ok(coins) => Ok(acc.push(crate::state::RewardAllModel {
                            proposal_id: pid,
                            total_incentive: coins,
                            claimed: store.voters_claim.get((address, pid)) == Some(true),
                        })),
                    },
                }
            },
        }
    }
}

proof fn lemma_bribe_rewards_prefix(store: &ContractStore, address: Seq<char>, props: Seq<u64>, i: int)
    requires
        0 <= i <= props.len(),
        bribe_rewards_over(store, address, props.subrange(0, i)) is Err,
    ensures
        bribe_rewards_over(store, address, props) == bribe_rewards_over(store, address, props.subrange(0, i)),
    decreases props.len() - i,
{
    if i < props.len() {
        assert(props.subrange(0, i + 1).drop_last() =~= props.subrange(0, i));
        lemma_bribe_rewards_prefix(store, address, props, i + 1);
    } else {
        assert(props.subrange(0, i) =~= props);
    }
}

/// For each proposal of `all_proposals` that `address` voted on, the bribes
/// its vote earned and whether it has claimed them.
pub fn calculate_bribe_reward_query(store: &ContractStore, _env: &Env, all_proposals: Vec<u64>, address: String, _app_id: u64) -> (r: Result<Vec<RewardAllResponse>, ContractError>)
    ensures
        match bribe_rewards_over(store, address@, all_proposals@) {
            Ok(l) => r is Ok && r->Ok_0.deep_view() == l,
            Err(e) => r is Err && r->Err_0@ == e,
        },
{
    let mut resp: Vec<RewardAllResponse> = Vec::new();
    assert(resp.deep_view() =~= Seq::<crate::state::RewardAllModel>::empty());
    let mut i: usize = 0;
    while i < all_proposals.len()
        invariant
            i <= all_proposals.len(),
            bribe_rewards_over(store, address@, all_proposals@.subrange(0, i as int)) == Ok::<Seq<crate::state::RewardAllModel>, ErrorModel>(resp.deep_view()),
        decreases all_proposals.len() - i,
    {
        proof {
            assert(all_proposals@.subrange(0, i + 1).drop_last() =~= all_proposals@.subrange(0, i as int));
        }
        let pid = all_proposals[i];
        let claimed = match store.voters_claim.load(&(address.clone(), pid)) {
            Some(b) => b,
            None => false,
        };
        match store.voters_proposal.load(&(address.clone(), pid)) {
            None => {},
            Some(vote) => {
                let mut coins: Vec<Coin> = Vec::new();
                assert(coins.deep_view() =~= Seq::<CoinModel>::empty());
                match accumulate(store, pid, &mut coins, &vote.votes, None) {
                    Ok(()) => {},
                    Err(e) => {
                        proof {
                            lemma_bribe_rewards_prefix(store, address@, all_proposals@, i + 1);
                        }
                        return Err(e);
                    },
                }
                let item = RewardAllResponse { proposal_id: pid, total_incentive: coins, claimed };
                let ghost before = resp.deep_view();
                let ghost im = item@;
                resp.push(item);
                proof {
                    assert(resp.deep_view() =~= before.push(im));
                }
            },
        }
        i = i + 1;
    }
    proof {
        assert(all_proposals@.subrange(0, all_proposals.len() as int) =~= all_proposals@);
    }
    Ok(resp)
}

/// What `query_bribe_eligible` answers.
pub open spec fn bribe_eligible_result(store: &ContractStore, address: Seq<char>, app_id: u64, r: Result<Vec<RewardAllResponse>, ContractError>) -> bool {
    match bribe_rewards_over(store, address, crate::rewards::completed_of(store, app_id)) {
        Ok(l) => r is Ok && r->Ok_0.deep_view() == l,
        Err(e) => r is Err && r->Err_0@ == e,
    }
}

/// The completed proposals of `app_id` whose bribes `address` can claim (see
/// [`calculate_bribe_reward_query`]).
pub fn query_bribe_eligible(store: &ContractStore, env: &Env, address: String, app_id: u64) -> (r: Result<Vec<RewardAllResponse>, ContractError>)
    ensures
        bribe_eligible_result(store, address@, app_id, r),
{
    let all_proposals = match store.completed_proposals.load(&app_id) {
        Some(v) => v,
        None => Vec::new(),
    };
    proof {
        crate::model::lemma_deep_view_u64(&all_proposals);
        if store.completed_proposals.get(app_id) is None {
            assert(all_proposals@ =~= Seq::<u64>::empty());
        }
    }
    calculate_bribe_reward_query(store, env, all_proposals, address, app_id)
}

/// The rebase of `address` in `denom` for proposal `pid`, `None` when the
/// proposal's emission is not completed or `address` held no tokens then:
/// `rebase_distributed * held / total_locked` and whether it has claimed it.
pub open spec fn rebase_entry(store: &ContractStore, address: Seq<char>, denom: Seq<char>, pid: u64) -> Result<Option<RebaseAllResponse>, ErrorModel> {
    match store.proposal.get(pid) {
        None => Err(missing("locking_contract::state::Proposal")),
        Some(p) => if !p.emission_completed {
            Ok(None)
        } else {
            match store.supply.get_at(denom, p.height) {
                None => Err(ErrorModel::Aborted(Abort::MissingValue)),
                Some(supply) => {
                    let l = match store.vtokens.get_at((address, denom), p.height) {
                        Some(l) => l,
                        None => seq![],
                    };
                    if l.len() == 0 {
                        Ok(None)
                    } else {
                        let t1 = crate::rebase::period_amount(l, LockingPeriod::T1);
                        let t2 = crate::rebase::period_amount(l, LockingPeriod::T2);
                        if t1 > u128::MAX || t2 > u128::MAX || t1 + t2 > u128::MAX {
                            Err(ErrorModel::Aborted(Abort::Overflow))
                        } else if p.rebase_distributed * (t1 + t2) > u128::MAX {
                            Err(ErrorModel::Std(StdErrorModel::Overflow))
                        } else if supply.token == 0 {
                            Err(ErrorModel::Std(StdErrorModel::DivideByZero))
                        } else {
                            Ok(Some(RebaseAllResponse {
                                proposal_id: pid,
                                rebase: ((p.rebase_distributed * (t1 + t2)) / (supply.token as int)) as u128,
                                claimed: store.rebase_claimed.get((address, pid)) == Some(true),
                            }))
                        }
                    }
                },
            }
        },
    }
}

fn rebase_entry_of(store: &ContractStore, address: &String, denom: &String, pid: u64) -> (r: Result<Option<RebaseAllResponse>, ContractError>)
    ensures
        match rebase_entry(store, address@, denom@, pid) {
            Ok(x) => r == Ok::<Option<RebaseAllResponse>, ContractError>(x),
            Err(e) => r is Err && r->Err_0@ == e,
        },
{
    let has_rebased = match store.rebase_claimed.load(&(address.clone(), pid)) {
        Some(b) => b,
        None => false,
    };
    let proposal = match store.proposal.load(&pid) {
        Some(p) => p,
        None => return Err(ContractError::not_found("locking_contract::state::Proposal")),
    };
    if !proposal.emission_completed {
        return Ok(None);
    }
    let supply = match store.supply.load_at_height(denom, proposal.height) {
        Some(s) => s,
        None => return Err(ContractError::aborted(Abort::MissingValue)),
    };
    let vtokens = match store.vtokens.load_at_height(&(address.clone(), denom.clone()), proposal.height) {
        Some(v) => v,
        None => Vec::new(),
    };
    proof {
        if store.vtokens.get_at((address@, denom@), proposal.height) is None {
            assert(vtokens.deep_view() =~= Seq::<VtokenModel>::empty());
        }
    }
    if vtokens.len() == 0 {
        return Ok(None);
    }
    let (t1, t2) = match crate::rebase::period_amounts(&vtokens) {
        Some(p) => p,
        None => return Err(ContractError::aborted(Abort::Overflow)),
    };
    let sum = match t1.checked_add(t2) {
        Some(x) => x,
        None => return Err(ContractError::aborted(Abort::Overflow)),
    };
    let x = match proposal.rebase_distributed.checked_mul(sum) {
        Some(x) => x,
        None => return Err(ContractError::Std(StdError::Overflow {})),
    };
    if supply.token == 0 {
        return Err(ContractError::Std(StdError::DivideByZero {}));
    }
    Ok(Some(RebaseAllResponse { proposal_id: pid, rebase: x / supply.token, claimed: has_rebased }))
}

/// For each completed proposal of `props` in which `address` held tokens of
/// `denom`, its rebase (see [`rebase_entry`]).
pub open spec fn rebase_eligible_over(store: &ContractStore, address: Seq<char>, denom: Seq<char>, props: Seq<u64>) -> Result<Seq<RebaseAllResponse>, ErrorModel>
    decreases props.len(),
{
    if props.len() == 0 {
        Ok(seq![])
    } else {
        match rebase_eligible_over(store, address, denom, props.drop_last()) {
            Err(e) => Err(e),
            Ok(acc) => match rebase_entry(store, address, denom, props.last()) {
                Err(e) => Err(e),
                Ok(None) => Ok(acc),
                Ok(Some(x)) => Ok(acc.push(x)),
            },
        }
    }
}

proof fn lemma_rebase_eligible_prefix(store: &ContractStore, address: Seq<char>, denom: Seq<char>, props: Seq<u64>, i: int)
    requires
        0 <= i <= props.len(),
        rebase_eligible_over(store, address, denom, props.subrange(0, i)) is Err,
    ensures
        rebase_eligible_over(store, address, denom, props) == rebase_eligible_over(store, address, denom, props.subrange(0, i)),
    decreases props.len() - i,
{
    if i < props.len() {
        assert(props.subrange(0, i + 1).drop_last() =~= props.subrange(0, i));
        lemma_rebase_eligible_prefix(store, address, denom, props, i + 1);
    } else {
        assert(props.subrange(0, i) =~= props);
    }
}

/// What `query_rebase_eligible` answers.
pub open spec fn rebase_eligible_result(store: &ContractStore, address: Seq<char>, app_id: u64, denom: Seq<char>, r: Result<Vec<RebaseAllResponse>, ContractError>) -> bool {
    match rebase_eligible_over(store, address, denom, crate::rewards::completed_of(store, app_id)) {
        Ok(l) => r is Ok && r->Ok_0@ == l,
        Err(e) => r is Err && r->Err_0@ == e,
    }
}

/// For each completed proposal of app `app_id` in which `address` held
/// tokens of `denom`, the rebase it can claim (see [`rebase_entry`]).
pub fn query_rebase_eligible(store: &ContractStore, address: String, app_id: u64, denom: String) -> (r: Result<Vec<RebaseAllResponse>, ContractError>)
    ensures
        rebase_eligible_result(store, address@, app_id, denom@, r),
{
    let all_proposals = match store.completed_proposals.load(&app_id) {
        Some(v) => v,
        None => Vec::new(),
    };
    proof {
        crate::model::lemma_deep_view_u64(&all_proposals);
        if store.completed_proposals.get(app_id) is None {
            assert(all_proposals@ =~= Seq::<u64>::empty());
        }
    }
    let ghost props = all_proposals@;
    let mut response: Vec<RebaseAllResponse> = Vec::new();
    let mut i: usize = 0;
    while i < all_proposals.len()
        invariant
            i <= all_proposals.len(),
            props == all_proposals@,
            props == crate::rewards::completed_of(store, app_id),
            rebase_eligible_over(store, address@, denom@, props.subrange(0, i as int)) == Ok::<Seq<RebaseAllResponse>, ErrorModel>(response@),
        decreases all_proposals.len() - i,
    {
        proof {
            assert(props.subrange(0, i + 1).drop_last() =~= props.subrange(0, i as int));
        }
        match rebase_entry_of(store, &address, &denom, all_proposals[i]) {
            Err(e) => {
                proof {
                    lemma_rebase_eligible_prefix(store, address@, denom@, props, i + 1);
                }
                return Err(e);
            },
            Ok(None) => {},
            Ok(Some(x)) => response.push(x),
        }
        i = i + 1;
    }
    proof {
        assert(props.subrange(0, all_proposals.len() as int) =~= props);
    }
    Ok(response)
}

/// Index of the first part of `votes` on `pair`, if any.
pub open spec fn pair_index(votes: Seq<crate::state::VotePair>, pair: u64) -> Option<int>
    decreases votes.len(),
{
    if votes.len() == 0 {
        None
    } else if votes[0].extended_pair == pair {
        Some(0)
    } else {
        match pair_index(votes.drop_first(), pair) {
            Some(i) => Some(i + 1),
            None => None,
        }
    }
}

proof fn lemma_pair_index(votes: Seq<crate::state::VotePair>, pair: u64)
    ensures
        match pair_index(votes, pair) {
            Some(i) => 0 <= i < votes.len() && votes[i].extended_pair == pair && forall|j: int| 0 <= j < i ==> votes[j].extended_pair != pair,
            None => forall|j: int| 0 <= j < votes.len() ==> votes[j].extended_pair != pair,
        },
    decreases votes.len(),
{
    if votes.len() > 0 {
        lemma_pair_index(votes.drop_first(), pair);
        assert forall|j: int| 0 < j < votes.len() implies #[trigger] votes[j] == votes.drop_first()[j - 1] by {}
    }
}

fn find_pair(votes: &Vec<crate::state::VotePair>, pair: u64) -> (r: Option<usize>)
    ensures
        match pair_index(votes@, pair) {
            Some(i) => r == Some(i as usize),
            None => r is None,
        },
        r is Some ==> r->Some_0 < votes.len() && pair_index(votes@, pair) == Some(r->Some_0 as int),
{
    proof {
        lemma_pair_index(votes@, pair);
    }
    let mut i: usize = 0;
    while i < votes.len()
        invariant
            i <= votes.len(),
            forall|j: int| 0 <= j < i ==> votes@[j].extended_pair != pair,
            match pair_index(votes@, pair) {
                Some(k) => 0 <= k < votes.len() && votes@[k].extended_pair == pair && forall|j: int| 0 <= j < k ==> votes@[j].extended_pair != pair,
                None => forall|j: int| 0 <= j < votes.len() ==> votes@[j].extended_pair != pair,
            },
        decreases votes.len() - i,
    {
        if votes[i].extended_pair == pair {
            return Some(i);
        }
        i = i + 1;
    }
    None
}

/// The part of the vote of `address` on proposal `pid` cast on `pair`, if any.
pub open spec fn user_vote_part(store: &ContractStore, address: Seq<char>, pid: u64, pair: u64) -> Option<crate::state::VotePair> {
    match store.voters_proposal.get((address, pid)) {
        None => None,
        Some(v) => match pair_index(v.votes, pair) {
            None => None,
            Some(i) => Some(v.votes[i]),
        },
    }
}

/// What `address` sees of extended pair `pair` of proposal `pid`: its vote
/// on it, the bribes deposited on it and its total vote.
pub open spec fn pair_view(store: &ContractStore, address: Seq<char>, pid: u64, pair: u64) -> crate::state::VoteResponseModel {
    let part = user_vote_part(store, address, pid, pair);
    crate::state::VoteResponseModel {
        pair,
        user_vote: match part {
            Some(vp) => vp.vote_weight,
            None => 0,
        },
        user_vote_ratio: match part {
            Some(vp) => vp.vote_ratio,
            None => Decimal { atomics: 0 },
        },
        total_incentive: match store.bribes_by_proposal.get((pid, pair)) {
            Some(b) => b,
            None => seq![],
        },
        total_vote: match store.proposal_vote.get((pid, pair)) {
            Some(t) => t,
            None => 0,
        },
    }
}

fn pair_response(store: &ContractStore, address: &String, pid: u64, pair: u64) -> (r: VoteResponse)
    ensures
        r@ == pair_view(store, address@, pid, pair),
{
    let total_vote = match store.proposal_vote.load(&(pid, pair)) {
        Some(t) => t,
        None => 0,
    };
    let mut user_vote: u128 = 0;
    let mut user_vote_ratio = Decimal::zero();
    match store.voters_proposal.load(&(address.clone(), pid)) {
        None => {},
        Some(v) => {
            proof {
                assert(v.votes.deep_view() =~= v.votes@);
            }
            match find_pair(&v.votes, pair) {
                None => {},
                Some(i) => {
                    user_vote = v.votes[i].vote_weight;
                    user_vote_ratio = v.votes[i].vote_ratio;
                    assert(user_vote_part(store, address@, pid, pair) == Some(v.votes@[i as int]));
                },
            }
        },
    }
    let total_incentive = match store.bribes_by_proposal.load(&(pid, pair)) {
        Some(b) => b,
        None => Vec::new(),
    };
    proof {
        if store.bribes_by_proposal.get((pid, pair)) is None {
            assert(total_incentive.deep_view() =~= Seq::<CoinModel>::empty());
        }
    }
    let r = VoteResponse { pair, user_vote, user_vote_ratio, total_incentive, total_vote };
    proof {
        let pv = pair_view(store, address@, pid, pair);
        assert(r@.total_vote == pv.total_vote);
        assert(r@.total_incentive == pv.total_incentive);
        assert(r@.user_vote == pv.user_vote);
        assert(r@.user_vote_ratio == pv.user_vote_ratio);
    }
    r
}

/// What `query_current_proposal_user` answers.
pub open spec fn current_proposal_user_result(store: &ContractStore, address: Seq<char>, app_id: u64, r: Result<Vec<VoteResponse>, ContractError>) -> bool {
    match store.app_current_proposal.get(app_id) {
        None => r is Err && r->Err_0@ == ErrorModel::Aborted(Abort::MissingValue),
        Some(cur) => match store.proposal.get(cur) {
            None => r is Err && r->Err_0@ == missing("locking_contract::state::Proposal"),
            Some(p) => r is Ok && r->Ok_0.len() == p.extended_pair.len()
                && forall|i: int| 0 <= i < p.extended_pair.len() ==> #[trigger] r->Ok_0@[i]@ == pair_view(store, address, cur, p.extended_pair[i]),
        },
    }
}

/// What `address` sees of each extended pair of the current proposal of app
/// `app_id` (see [`pair_view`]); the app must have a current proposal.
pub fn query_current_proposal_user(store: &ContractStore, address: String, app_id: u64) -> (r: Result<Vec<VoteResponse>, ContractError>)
    ensures
        current_proposal_user_result(store, address@, app_id, r),
{
    let current = match store.app_current_proposal.load(&app_id) {
        Some(c) => c,
        None => return Err(ContractError::aborted(Abort::MissingValue)),
    };
    let proposal = match store.proposal.load(&current) {
        Some(p) => p,
        None => return Err(ContractError::not_found("locking_contract::state::Proposal")),
    };
    let mut resp: Vec<VoteResponse> = Vec::new();
    let mut i: usize = 0;
    while i < proposal.extended_pair.len()
        invariant
            i <= proposal.extended_pair.len(),
            resp.len() == i,
            forall|j: int| 0 <= j < i ==> #[trigger] resp@[j]@ == pair_view(store, address@, current, proposal.extended_pair@[j]),
        decreases proposal.extended_pair.len() - i,
    {
        let item = pair_response(store, &address, current, proposal.extended_pair[i]);
        resp.push(item);
        i = i + 1;
    }
    Ok(resp)
}

proof fn lemma_token_sum_nonneg(l: Seq<VtokenModel>)
    ensures
        crate::withdraw::token_sum(l) >= 0,
    decreases l.len(),
{
    if l.len() > 0 {
        lemma_token_sum_nonneg(l.drop_last());
    }
}

/// What `query_emission_voting_power` answers.
pub open spec fn emission_voting_power_result(store: &ContractStore, address: Seq<char>, proposal_id: u64, denom: Seq<char>, r: Result<u128, ContractError>) -> bool {
    match store.proposal.get(proposal_id) {
        None => r is Err && r->Err_0@ == ErrorModel::Aborted(Abort::MissingValue),
        Some(p) => match store.vtokens.get_at((address, denom), p.height) {
            None => r == Ok::<u128, ContractError>(0),
            Some(l) => {
                let casted = match store.delegated.get_at(address, p.height) {
                    Some(d) => d.total_casted as int,
                    None => 0,
                };
                if crate::withdraw::token_sum(l) > u128::MAX || crate::withdraw::token_sum(l) < casted {
                    r is Err && r->Err_0@ == ErrorModel::Aborted(Abort::Overflow)
                } else {
                    r == Ok::<u128, ContractError>((crate::withdraw::token_sum(l) - casted) as u128)
                }
            },
        },
    }
}

/// The voting power of `address` in `denom` for proposal `proposal_id`: its
/// tokens locked at the proposal's height less what it had delegated then.
pub fn query_emission_voting_power(store: &ContractStore, address: String, proposal_id: u64, denom: String) -> (r: Result<u128, ContractError>)
    ensures
        emission_voting_power_result(store, address@, proposal_id, denom@, r),
{
    let proposal = match store.proposal.load(&proposal_id) {
        Some(p) => p,
        None => return Err(ContractError::aborted(Abort::MissingValue)),
    };
    let vtokens = match store.vtokens.load_at_height(&(address.clone(), denom), proposal.height) {
        Some(v) => v,
        None => return Ok(0),
    };
    proof {
        lemma_token_sum_nonneg(vtokens.deep_view());
    }
    let power = match crate::withdraw::sum_tokens(&vtokens) {
        Some(p) => p,
        None => return Err(ContractError::aborted(Abort::Overflow)),
    };
    match store.delegated.load_at_height(&address, proposal.height) {
        None => Ok(power),
        Some(d) => if d.total_casted > power {
            Err(ContractError::aborted(Abort::Overflow))
        } else {
            Ok(power - d.total_casted)
        },
    }
}

} // verus!
