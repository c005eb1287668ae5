//! Emission of a proposal: the governance tokens minted after the voting
//! period, split between the vaults and pools voted for, the foundation and
//! the rebase of vtoken holders; and the foundation's share.
use crate::contract::{assert_admin, is_admin_spec};
use crate::decimal::{spec_multiply_ratio, Decimal, DECIMAL_FRACTIONAL};
use crate::env::{Env, EnvModel, MessageInfo, MessageInfoModel};
use crate::error::{custom, missing, Abort, ContractError, ErrorModel, StdError};
use crate::model::{copy_u128s, copy_u64s, lemma_deep_view_u64, Duplicate};
use crate::response::{comdex_model, ComdexMessages, CosmosMsg, MsgModel, Response, ResponseModel};
use crate::state::{Coin, CoinModel, Emission, EmissionVaultPool, EmissionVaultPoolModel, ProposalModel, StateModel, TokenSupply};
use crate::store::{ContractStore, Part};
use vstd::prelude::*;

verus! {

/// Ids of extended pairs from this value on stand for pools of the exchange:
/// the pool id is the pair id taken modulo this value.
pub const POOL_OFFSET: u64 = 1000000;

/// An extended pair of a proposal, told apart as a vault pair or a pool.
#[derive(Clone, Copy, Debug, PartialEq, Eq, Structural)]
pub enum PairKind {
    Vault(u64),
    Pool(u64),
}

/// Tells a vault pair from a pool: pair ids below [`POOL_OFFSET`] are vault
/// pairs, the others are pools with id `pair % POOL_OFFSET`.
pub fn classify_pair(pair: u64) -> (k: PairKind)
    ensures
        k == spec_classify(pair),
{
    if pair / POOL_OFFSET == 0 {
        PairKind::Vault(pair)
    } else {
        PairKind::Pool(pair % POOL_OFFSET)
    }
}

pub open spec fn spec_classify(pair: u64) -> PairKind {
    if pair / 1000000 == 0 {
        PairKind::Vault(pair)
    } else {
        PairKind::Pool((pair % 1000000) as u64)
    }
}

/// The total vote weight of `pair` in proposal `pid` (zero when none).
pub open spec fn vote_of(store: &ContractStore, pid: u64, pair: u64) -> u128 {
    match store.proposal_vote.get((pid, pair)) {
        Some(v) => v,
        None => 0,
    }
}

/// The pairs of a proposal split into vaults and pools, with their votes.
pub struct PairSplit {
    pub vault_ids: Seq<u64>,
    pub vault_votes: Seq<u128>,
    pub pool_ids: Seq<u64>,
    pub pool_votes: Seq<u128>,
    pub total: int,
}

pub open spec fn split_votes(store: &ContractStore, pid: u64, pairs: Seq<u64>) -> PairSplit
    decreases pairs.len(),
{
    if pairs.len() == 0 {
        PairSplit { vault_ids: seq![], vault_votes: seq![], pool_ids: seq![], pool_votes: seq![], total: 0 }
    } else {
        let s = split_votes(store, pid, pairs.drop_last());
        let i = pairs.last();
        let v = vote_of(store, pid, i);
        match spec_classify(i) {
            PairKind::Vault(id) => PairSplit {
                vault_ids: s.vault_ids.push(id),
                vault_votes: s.vault_votes.push(v),
                total: s.total + v,
                ..s
            },
            PairKind::Pool(id) => PairSplit {
                pool_ids: s.pool_ids.push(id),
                pool_votes: s.pool_votes.push(v),
                total: s.total + v,
                ..s
            },
        }
    }
}

/// Sum of a sequence of amounts.
pub open spec fn seq_sum(s: Seq<u128>) -> int
    decreases s.len(),
{
    if s.len() == 0 {
        0
    } else {
        seq_sum(s.drop_last()) + s.last()
    }
}

pub(crate) proof fn lemma_split_total(store: &ContractStore, pid: u64, pairs: Seq<u64>)
    ensures
        split_votes(store, pid, pairs).total == seq_sum(split_votes(store, pid, pairs).vault_votes) + seq_sum(split_votes(store, pid, pairs).pool_votes),
        split_votes(store, pid, pairs).total >= 0,
        split_votes(store, pid, pairs).vault_ids.len() == split_votes(store, pid, pairs).vault_votes.len(),
        split_votes(store, pid, pairs).pool_ids.len() == split_votes(store, pid, pairs).pool_votes.len(),
    decreases pairs.len(),
{
    if pairs.len() > 0 {
        lemma_split_total(store, pid, pairs.drop_last());
        let s = split_votes(store, pid, pairs.drop_last());
        assert(s.vault_votes.push(vote_of(store, pid, pairs.last())).drop_last() =~= s.vault_votes);
        assert(s.pool_votes.push(vote_of(store, pid, pairs.last())).drop_last() =~= s.pool_votes);
    }
}

/// Splits the pairs of proposal `pid` into vault pairs and pools, with the
/// total vote weight of each and the total of all; aborts if that total
/// overflows.
fn split_pairs(store: &ContractStore, pid: u64, pairs: &Vec<u64>) -> (r: Result<(Vec<u64>, Vec<u128>, Vec<u64>, Vec<u128>, u128), ContractError>)
    ensures
        split_votes(store, pid, pairs@).total > u128::MAX ==> r is Err && r->Err_0@ == ErrorModel::Aborted(Abort::Overflow),
        split_votes(store, pid, pairs@).total <= u128::MAX ==> r is Ok && {
            let (vi, vv, pi, pv, t) = r->Ok_0;
            let s = split_votes(store, pid, pairs@);
            &&& vi@ == s.vault_ids
            &&& vv@ == s.vault_votes
            &&& pi@ == s.pool_ids
            &&& pv@ == s.pool_votes
            &&& t == s.total
        },
{
    let mut vault_ids: Vec<u64> = Vec::new();
    let mut vault_votes: Vec<u128> = Vec::new();
    let mut pool_ids: Vec<u64> = Vec::new();
    let mut pool_votes: Vec<u128> = Vec::new();
    let mut total: u128 = 0;
    let mut i: usize = 0;
    while i < pairs.len()
        invariant
            i <= pairs.len(),
            ({
                let s = split_votes(store, pid, pairs@.subrange(0, i as int));
                &&& vault_ids@ == s.vault_ids
                &&& vault_votes@ == s.vault_votes
                &&& pool_ids@ == s.pool_ids
                &&& pool_votes@ == s.pool_votes
                &&& total == s.total
            }),
        decreases pairs.len() - i,
    {
        proof {
            assert(pairs@.subrange(0, i + 1).drop_last() =~= pairs@.subrange(0, i as int));
        }
        let pair = pairs[i];
        let vote = match store.proposal_vote.load(&(pid, pair)) {
            Some(v) => v,
            None => 0,
        };
        match classify_pair(pair) {
            PairKind::Vault(id) => {
                vault_ids.push(id);
                vault_votes.push(vote);
            },
            PairKind::Pool(id) => {
                pool_ids.push(id);
                pool_votes.push(vote);
            },
        }
        total = match total.checked_add(vote) {
            Some(t) => t,
            None => {
                proof {
                    lemma_split_monotone(store, pid, pairs@, i + 1);
                }
                return Err(ContractError::aborted(Abort::Overflow));
            },
        };
        i = i + 1;
    }
    proof {
        assert(pairs@.subrange(0, pairs.len() as int) =~= pairs@);
    }
    Ok((vault_ids, vault_votes, pool_ids, pool_votes, total))
}

/// The total only grows along the pairs.
proof fn lemma_split_monotone(store: &ContractStore, pid: u64, pairs: Seq<u64>, i: int)
    requires
        0 <= i <= pairs.len(),
    ensures
        split_votes(store, pid, pairs.subrange(0, i)).total <= split_votes(store, pid, pairs).total,
    decreases pairs.len() - i,
{
    if i < pairs.len() {
        lemma_split_monotone(store, pid, pairs, i + 1);
        assert(pairs.subrange(0, i + 1).drop_last() =~= pairs.subrange(0, i));
    } else {
        assert(pairs.subrange(0, i) =~= pairs);
    }
}

/// `v * share / total` for every vote `v`, or `None` if a product overflows;
/// nothing at all when `total` is zero.
pub open spec fn spec_shares(votes: Seq<u128>, share: u128, total: u128) -> Option<Seq<u128>>
    decreases votes.len(),
{
    if total == 0 || votes.len() == 0 {
        Some(seq![])
    } else {
        match spec_shares(votes.drop_last(), share, total) {
            None => None,
            Some(prev) => if votes.last() * share > u128::MAX {
                None
            } else {
                Some(prev.push(((votes.last() * share) / (total as int)) as u128))
            },
        }
    }
}

/// Splits `share` between the `votes` in proportion to each vote over `total`.
pub fn proportional_shares(votes: &Vec<u128>, share: u128, total: u128) -> (r: Option<Vec<u128>>)
    ensures
        match spec_shares(votes@, share, total) {
            None => r is None,
            Some(s) => r is Some && r->Some_0@ == s,
        },
{
    let mut out: Vec<u128> = Vec::new();
    if total == 0 {
        return Some(out);
    }
    let mut i: usize = 0;
    while i < votes.len()
        invariant
            i <= votes.len(),
            total != 0,
            spec_shares(votes@.subrange(0, i as int), share, total) == Some(out@),
        decreases votes.len() - i,
    {
        proof {
            assert(votes@.subrange(0, i + 1).drop_last() =~= votes@.subrange(0, i as int));
        }
        let v = votes[i];
        match v.checked_mul(share) {
            Some(p) => out.push(p / total),
            None => {
                proof {
                    lemma_shares_prefix(votes@, share, total, i + 1);
                }
                return None;
            },
        }
        i = i + 1;
    }
    proof {
        assert(votes@.subrange(0, votes.len() as int) =~= votes@);
    }
    Some(out)
}

/// Once a prefix fails, the whole fails.
proof fn lemma_shares_prefix(votes: Seq<u128>, share: u128, total: u128, i: int)
    requires
        0 <= i <= votes.len(),
        spec_shares(votes.subrange(0, i), share, total) is None,
    ensures
        spec_shares(votes, share, total) is None,
    decreases votes.len() - i,
{
    if i < votes.len() {
        assert(votes.subrange(0, i + 1).drop_last() =~= votes.subrange(0, i));
        lemma_shares_prefix(votes, share, total, i + 1);
    } else {
        assert(votes.subrange(0, i) =~= votes);
    }
}

/// The share of the pools and the share of the vaults of the distributed
/// emission: the pools get `pool_votes * distributed / total_vote`, the
/// vaults the rest.
pub open spec fn spec_split_emission(pool_votes: u128, distributed: u128, total_vote: u128) -> Result<(u128, u128), Abort> {
    if pool_votes * distributed > u128::MAX {
        Err(Abort::Overflow)
    } else if total_vote == 0 {
        Err(Abort::DivideByZero)
    } else if (pool_votes * distributed) / (total_vote as int) > distributed {
        Err(Abort::Overflow)
    } else {
        Ok((((pool_votes * distributed) / (total_vote as int)) as u128, (distributed - (pool_votes * distributed) / (total_vote as int)) as u128))
    }
}

/// Splits the distributed emission between pools and vaults by their votes.
pub fn split_emission(pool_votes: u128, distributed: u128, total_vote: u128) -> (r: Result<(u128, u128), Abort>)
    ensures
        r == spec_split_emission(pool_votes, distributed, total_vote),
{
    let p = match pool_votes.checked_mul(distributed) {
        Some(p) => p,
        None => return Err(Abort::Overflow),
    };
    if total_vote == 0 {
        return Err(Abort::DivideByZero);
    }
    let pools_share = p / total_vote;
    if pools_share > distributed {
        return Err(Abort::Overflow);
    }
    Ok((pools_share, distributed - pools_share))
}

/// The answers of the chain that the emission of a proposal needs: the
/// governance token id of the app, its denomination, its total supply, the
/// tokens still vesting in the vesting contract, and the surplus the app has
/// collected.
pub struct EmissionFacts {
    pub gov_token_id: Result<u64, StdError>,
    pub gov_token_denom: Result<String, StdError>,
    pub token_supply: Result<u64, StdError>,
    pub vested_tokens: Result<u128, StdError>,
    pub surplus: Result<Coin, StdError>,
}

/// The share of the tokens that are locked, `vtokens / (circulating +
/// vtokens)`, where the circulating supply is the total supply less the
/// vesting tokens and the locked tokens.
pub open spec fn spec_locked_ratio(total_weight: u64, vested: u128, supply: TokenSupply) -> Result<u128, Abort> {
    let circ = total_weight - vested - supply.token;
    if circ < 0 || circ + supply.vtoken > u128::MAX {
        Err(Abort::Overflow)
    } else if circ + supply.vtoken == 0 {
        Err(Abort::DivideByZero)
    } else {
        match spec_multiply_ratio(supply.vtoken, DECIMAL_FRACTIONAL, (circ + supply.vtoken) as u128) {
            None => Err(Abort::Overflow),
            Some(r) => Ok(r),
        }
    }
}

pub(crate) fn locked_ratio(total_weight: u64, vested: u128, supply: TokenSupply) -> (r: Result<u128, Abort>)
    ensures
        r == spec_locked_ratio(total_weight, vested, supply),
{
    let circ = match (total_weight as u128).checked_sub(vested) {
        Some(c) => match c.checked_sub(supply.token) {
            Some(c) => c,
            None => return Err(Abort::Overflow),
        },
        None => return Err(Abort::Overflow),
    };
    let d = match circ.checked_add(supply.vtoken) {
        Some(d) => d,
        None => return Err(Abort::Overflow),
    };
    if d == 0 {
        return Err(Abort::DivideByZero);
    }
    match Decimal::raw(supply.vtoken).checked_div(Decimal::raw(d)) {
        Some(p) => Ok(p.atomics),
        None => Err(Abort::Overflow),
    }
}

/// Reward minted by the emission (`rewards_pending * emission_rate`) and the
/// part of it that is not rebased (`reward * (1 - locked)`).
pub open spec fn spec_reward(emission: Emission, locked: u128) -> Result<(u128, u128), Abort> {
    match spec_multiply_ratio(emission.rewards_pending, emission.emission_rate.atomics, DECIMAL_FRACTIONAL) {
        None => Err(Abort::Overflow),
        Some(reward) => if locked > DECIMAL_FRACTIONAL {
            Err(Abort::Overflow)
        } else {
            match spec_multiply_ratio(reward, (DECIMAL_FRACTIONAL - locked) as u128, DECIMAL_FRACTIONAL) {
                None => Err(Abort::Overflow),
                Some(effective) => Ok((reward, effective)),
            }
        },
    }
}

pub(crate) fn reward_of(emission: &Emission, locked: u128) -> (r: Result<(u128, u128), Abort>)
    ensures
        r == spec_reward(*emission, locked),
{
    let reward = match emission.emission_rate.checked_mul_amount(emission.rewards_pending) {
        Some(r) => r,
        None => return Err(Abort::Overflow),
    };
    let rest = match Decimal::one().checked_sub(Decimal::raw(locked)) {
        Some(d) => d,
        None => return Err(Abort::Overflow),
    };
    match rest.checked_mul_amount(reward) {
        Some(e) => Ok((reward, e)),
        None => Err(Abort::Overflow),
    }
}

/// Shares of an emission.
pub struct Shares {
    /// Part of the effective emission that goes to the foundation.
    pub foundation: u128,
    /// Part of the effective emission that goes to vaults and pools.
    pub distributed: u128,
    /// Part of the reward that rebases vtoken holders.
    pub rebase: u128,
    /// Rewards of the app still to be emitted.
    pub pending: u128,
    /// Rewards of the app emitted so far.
    pub emitted: u128,
}

pub open spec fn spec_shares_of(emission: Emission, reward: u128, effective: u128, locked: u128, foundation_pct: Decimal) -> Result<Shares, Abort> {
    match spec_multiply_ratio(effective, foundation_pct.atomics, DECIMAL_FRACTIONAL) {
        None => Err(Abort::Overflow),
        Some(foundation) => if foundation > effective {
            Err(Abort::Overflow)
        } else {
            match spec_multiply_ratio(reward, locked, DECIMAL_FRACTIONAL) {
                None => Err(Abort::Overflow),
                Some(rebase) => if reward > emission.rewards_pending
                    || emission.distributed_rewards + reward > u128::MAX {
                    Err(Abort::Overflow)
                } else {
                    Ok(Shares {
                        foundation,
                        distributed: (effective - foundation) as u128,
                        rebase,
                        pending: (emission.rewards_pending - reward) as u128,
                        emitted: (emission.distributed_rewards + reward) as u128,
                    })
                },
            }
        },
    }
}

fn shares_of(emission: &Emission, reward: u128, effective: u128, locked: u128, foundation_pct: Decimal) -> (r: Result<Shares, Abort>)
    ensures
        r == spec_shares_of(*emission, reward, effective, locked, foundation_pct),
{
    let foundation = match foundation_pct.checked_mul_amount(effective) {
        Some(f) => f,
        None => return Err(Abort::Overflow),
    };
    if foundation > effective {
        return Err(Abort::Overflow);
    }
    let rebase = match Decimal::raw(locked).checked_mul_amount(reward) {
        Some(r) => r,
        None => return Err(Abort::Overflow),
    };
    if reward > emission.rewards_pending {
        return Err(Abort::Overflow);
    }
    let emitted = match emission.distributed_rewards.checked_add(reward) {
        Some(e) => e,
        None => return Err(Abort::Overflow),
    };
    Ok(Shares {
        foundation,
        distributed: effective - foundation,
        rebase,
        pending: emission.rewards_pending - reward,
        emitted,
    })
}

/// The proposal after the foundation's share is sent, and the message that
/// sends it; or why it cannot be sent.
pub open spec fn spec_foundation(store: &ContractStore, info: MessageInfoModel, pid: u64) -> Result<(ProposalModel, MsgModel), ErrorModel> {
    if !is_admin_spec(store, info.sender) {
        Err(ErrorModel::NotAdmin)
    } else {
        match store.proposal.get(pid) {
            None => Err(missing("locking_contract::state::Proposal")),
            Some(p) => if !p.emission_completed {
                Err(custom("Emission calculation did not take place to initiate foundation calculation"))
            } else if info.funds.len() != 0 {
                Err(custom("Funds not accepted"))
            } else if p.foundation_emission_completed {
                Err(custom("Emission already distributed"))
            } else {
                match store.state.get() {
                    None => Err(missing("locking_contract::state::State")),
                    Some(st) => if st.foundation_addr.len() == 0 {
                        Err(custom("No foundation address found"))
                    } else {
                        Ok((
                            ProposalModel { foundation_emission_completed: true, ..p },
                            MsgModel::FoundationEmission {
                                app_id: p.app_id,
                                amount: p.foundation_distributed,
                                foundation_address: st.foundation_addr,
                            },
                        ))
                    },
                }
            },
        }
    }
}

/// The outcome of `emission_foundation` from `old` to `new` with answer `r`.
pub open spec fn foundation_outcome(old: &ContractStore, new: &ContractStore, r: Result<Vec<ComdexMessages>, ContractError>, info: MessageInfoModel, proposal_id: u64) -> bool {
    match spec_foundation(old, info, proposal_id) {
        Err(e) => r is Err && r->Err_0@ == e && ContractStore::agrees(new, old, Set::empty()),
        Ok((p, m)) => {
            &&& r is Ok && r->Ok_0.deep_view() == seq![m]
            &&& new.proposal.writes() == old.proposal.writes().push((proposal_id, 0, Some(p)))
            &&& ContractStore::agrees(new, old, set![Part::Proposal])
        },
    }
}

/// The outcome of a message asking for the foundation's share of proposal
/// `proposal_id`: that of [`emission_foundation`], its message answered to
/// the chain.
pub open spec fn foundation_rewards_outcome(old: &ContractStore, new: &ContractStore, r: Result<Response, ContractError>, info: MessageInfoModel, proposal_id: u64) -> bool {
    match spec_foundation(old, info, proposal_id) {
        Err(e) => r is Err && r->Err_0@ == e && ContractStore::agrees(new, old, Set::empty()),
        Ok((p, m)) => {
            &&& r is Ok && r->Ok_0@ == (ResponseModel { messages: seq![m], attributes: seq![] })
            &&& new.proposal.writes() == old.proposal.writes().push((proposal_id, 0, Some(p)))
            &&& ContractStore::agrees(new, old, set![Part::Proposal])
        },
    }
}

/// Sends the foundation's share of the emission of proposal `proposal_id`,
/// once the emission is computed, answering the chain with the message that
/// sends it. Only the admin may.
pub fn foundation_rewards(store: &mut ContractStore, env: &Env, info: &MessageInfo, proposal_id: u64) -> (r: Result<Response, ContractError>)
    ensures
        foundation_rewards_outcome(old(store), final(store), r, info@, proposal_id),
{
    let msgs = match emission_foundation(store, env, info, proposal_id) {
        Ok(m) => m,
        Err(e) => return Err(e),
    };
    assert(msgs.deep_view().len() == 1);
    let m = msgs[0].duplicate();
    assert(m.deep_view() == msgs.deep_view()[0]);
    let resp = Response::new().add_message(CosmosMsg::Custom(m));
    proof {
        assert(resp@.messages =~= msgs.deep_view());
    }
    Ok(resp)
}

/// Sends the foundation's share of the emission of proposal `proposal_id` to
/// the foundation addresses, once the emission is computed. Only the admin
/// may.
pub fn emission_foundation(store: &mut ContractStore, _env: &Env, info: &MessageInfo, proposal_id: u64) -> (r: Result<Vec<ComdexMessages>, ContractError>)
    ensures
        foundation_outcome(old(store), final(store), r, info@, proposal_id),
{
    assert_admin(store, &info.sender)?;
    let mut proposal = match store.proposal.load(&proposal_id) {
        Some(p) => p,
        None => return Err(ContractError::not_found("locking_contract::state::Proposal")),
    };
    if !proposal.emission_completed {
        return Err(ContractError::custom("Emission calculation did not take place to initiate foundation calculation"));
    }
    if info.funds.len() != 0 {
        return Err(ContractError::custom("Funds not accepted"));
    }
    if proposal.foundation_emission_completed {
        return Err(ContractError::custom("Emission already distributed"));
    }
    let state = match store.state.load() {
        Some(s) => s,
        None => return Err(ContractError::not_found("locking_contract::state::State")),
    };
    if state.foundation_addr.len() == 0 {
        return Err(ContractError::custom("No foundation address found"));
    }
    let emission_msg = ComdexMessages::MsgFoundationEmission {
        app_id: proposal.app_id,
        amount: proposal.foundation_distributed,
        foundation_address: state.foundation_addr,
    };
    proposal.foundation_emission_completed = true;
    store.proposal.save(proposal_id, proposal, 0);
    let mut out: Vec<ComdexMessages> = Vec::new();
    out.push(emission_msg);
    proof {
        assert(out.deep_view() =~= seq![comdex_model(&emission_msg)]);
    }
    Ok(out)
}

/// What the emission of a proposal writes and answers.
pub struct EmissionPlan {
    pub proposal: ProposalModel,
    pub emission: Emission,
    pub rewards: EmissionVaultPoolModel,
    pub completed: Seq<u64>,
    pub messages: Seq<MsgModel>,
}

/// The completed proposals of `app_id` once `pid` is added.
pub open spec fn completed_after(store: &ContractStore, app_id: u64, pid: u64) -> Seq<u64> {
    match store.completed_proposals.get(app_id) {
        Some(l) => l.push(pid),
        None => seq![pid],
    }
}

/// `m` as a one-message sequence when `keep` holds, else nothing.
pub open spec fn opt_msg(keep: bool, m: MsgModel) -> Seq<MsgModel> {
    if keep {
        seq![m]
    } else {
        seq![]
    }
}

/// The last stage of an emission: the split between vaults, pools,
/// foundation and rebase, and the messages that pay them.
pub open spec fn spec_emission_split(
    store: &ContractStore,
    env: EnvModel,
    pid: u64,
    p: ProposalModel,
    facts: &EmissionFacts,
    st: StateModel,
    em: Emission,
    locked: u128,
    reward: u128,
    effective: u128,
) -> Result<EmissionPlan, ErrorModel> {
    let split = split_votes(store, pid, p.extended_pair);
    let pool_sum = seq_sum(split.pool_votes);
    let vault_sum = seq_sum(split.vault_votes);
    if split.total > u128::MAX {
        Err(ErrorModel::Aborted(Abort::Overflow))
    } else {
        match spec_shares_of(em, reward, effective, locked, st.foundation_percentage) {
            Err(a) => Err(ErrorModel::Aborted(a)),
            Ok(sh) => match spec_split_emission(pool_sum as u128, sh.distributed, split.total as u128) {
                Err(a) => Err(ErrorModel::Aborted(a)),
                Ok((pools_share, vault_share)) => match spec_shares(split.pool_votes, pools_share, pool_sum as u128) {
                    None => Err(ErrorModel::Aborted(Abort::Overflow)),
                    Some(pool_rewards) => match spec_shares(split.vault_votes, vault_share, vault_sum as u128) {
                        None => Err(ErrorModel::Aborted(Abort::Overflow)),
                        Some(vault_rewards) => match facts.surplus {
                            Err(e) => Err(ErrorModel::Std(e@)),
                            Ok(surplus) => match store.cswap_id.get() {
                                None => Err(missing("u64")),
                                Some(cswap) => if p.foundation_emission_completed {
                                    Err(custom("Emission already distributed"))
                                } else if st.foundation_addr.len() == 0 {
                                    Err(custom("No foundation address found"))
                                } else {
                                    Ok(EmissionPlan {
                                        proposal: ProposalModel {
                                            foundation_distributed: sh.foundation,
                                            emission_completed: true,
                                            emission_distributed: sh.distributed,
                                            rebase_distributed: sh.rebase,
                                            total_surplus: surplus@,
                                            foundation_emission_completed: true,
                                            ..p
                                        },
                                        emission: Emission { rewards_pending: sh.pending, distributed_rewards: sh.emitted, ..em },
                                        rewards: EmissionVaultPoolModel {
                                            app_id: p.app_id,
                                            pool_ids: split.pool_ids,
                                            vault_ids: split.vault_ids,
                                            total_emission_rewards: sh.distributed,
                                            pool_rewards,
                                            vault_rewards,
                                        },
                                        completed: completed_after(store, p.app_id, pid),
                                        messages: opt_msg(vault_sum != 0, MsgModel::EmissionRewards {
                                            app_id: p.app_id,
                                            amount: vault_share,
                                            extended_pair: split.vault_ids,
                                            voting_ratio: split.vault_votes,
                                        }) + opt_msg(pool_sum != 0, MsgModel::EmissionPoolRewards {
                                            app_id: p.app_id,
                                            cswap_app_id: cswap,
                                            amount: pools_share,
                                            pools: split.pool_ids,
                                            voting_ratio: split.pool_votes,
                                        }) + seq![MsgModel::RebaseMint {
                                            app_id: p.app_id,
                                            amount: sh.rebase,
                                            contract_addr: env.contract,
                                        }] + opt_msg(surplus.amount != 0, MsgModel::GetSurplusFund {
                                            app_id: p.app_id,
                                            asset_id: st.surplus_asset_id,
                                            contract_addr: env.contract,
                                            amount: surplus@,
                                        }) + seq![MsgModel::FoundationEmission {
                                            app_id: p.app_id,
                                            amount: sh.foundation,
                                            foundation_address: st.foundation_addr,
                                        }],
                                    })
                                },
                            },
                        },
                    },
                },
            },
        }
    }
}

/// The stage of an emission that reads the chain's answers and the stored
/// supply, state and emission of the app.
pub open spec fn spec_emission_amounts(store: &ContractStore, env: EnvModel, pid: u64, p: ProposalModel, facts: &EmissionFacts) -> Result<EmissionPlan, ErrorModel> {
    match facts.gov_token_id {
        Err(e) => Err(ErrorModel::Std(e@)),
        Ok(gid) => match facts.gov_token_denom {
            Err(e) => Err(ErrorModel::Std(e@)),
            Ok(denom) => if denom@.len() == 0 || gid == 0 {
                Err(custom("Gov token not found"))
            } else {
                match store.supply.get_at(denom@, p.height) {
                    None => Err(ErrorModel::Aborted(Abort::MissingValue)),
                    Some(supply) => match facts.token_supply {
                        Err(e) => Err(ErrorModel::Std(e@)),
                        Ok(total_weight) => if total_weight == 0 {
                            Err(custom("Current Circulating Supply is 0"))
                        } else {
                            match store.state.get() {
                                None => Err(missing("locking_contract::state::State")),
                                Some(st) => match facts.vested_tokens {
                                    Err(e) => Err(ErrorModel::Std(e@)),
                                    Ok(vested) => match spec_locked_ratio(total_weight, vested, supply) {
                                        Err(a) => Err(ErrorModel::Aborted(a)),
                                        Ok(locked) => match store.emission.get(p.app_id) {
                                            None => Err(missing("locking_contract::state::Emission")),
                                            Some(em) => match spec_reward(em, locked) {
                                                Err(a) => Err(ErrorModel::Aborted(a)),
                                                Ok((reward, effective)) => spec_emission_split(
                                                    store, env, pid, p, facts, st, em, locked, reward, effective,
                                                ),
                                            },
                                        },
                                    },
                                },
                            }
                        },
                    },
                }
            },
        },
    }
}

/// The effect of the emission of proposal `pid`, or why it fails.
pub open spec fn spec_emission(store: &ContractStore, env: EnvModel, info: MessageInfoModel, pid: u64, facts: &EmissionFacts) -> Result<EmissionPlan, ErrorModel> {
    if !is_admin_spec(store, info.sender) {
        Err(ErrorModel::NotAdmin)
    } else if info.funds.len() != 0 {
        Err(ErrorModel::FundsNotAllowed)
    } else {
        match store.proposal.get(pid) {
            None => Err(missing("locking_contract::state::Proposal")),
            Some(p) => if p.emission_completed {
                Err(custom("Emission already completed"))
            } else if p.voting_end_time.nanos > env.time.nanos {
                Err(custom("Proposal Voting Period not ended to execute emission for the proposal"))
            } else {
                spec_emission_amounts(store, env, pid, p, facts)
            },
        }
    }
}

/// What the emission writes and answers, in executable form.
struct EmissionResult {
    proposal: crate::state::Proposal,
    emission: Emission,
    rewards: EmissionVaultPool,
    completed: Vec<u64>,
    messages: Vec<CosmosMsg>,
}

/// The plan in executable form matches the model.
spec fn result_matches(r: &EmissionResult, plan: EmissionPlan) -> bool {
    &&& r.proposal@ == plan.proposal
    &&& r.emission == plan.emission
    &&& r.rewards@ == plan.rewards
    &&& r.completed@ == plan.completed
    &&& r.messages.deep_view() == plan.messages
}

fn emission_split_exec(
    store: &ContractStore,
    env: &Env,
    pid: u64,
    p: crate::state::Proposal,
    facts: &EmissionFacts,
    st: &crate::state::State,
    em: &Emission,
    locked: u128,
    reward: u128,
    effective: u128,
) -> (r: Result<EmissionResult, ContractError>)
    ensures
        match spec_emission_split(store, env@, pid, p@, facts, st@, *em, locked, reward, effective) {
            Err(e) => r is Err && r->Err_0@ == e,
            Ok(plan) => r is Ok && result_matches(&r->Ok_0, plan),
        },
{
    let ghost split = split_votes(store, pid, p@.extended_pair);
    proof {
        lemma_split_total(store, pid, p@.extended_pair);
    }
    let (vault_ids, vault_votes, pool_ids, pool_votes, total_vote) = split_pairs(store, pid, &p.extended_pair)?;
    let sh = match shares_of(em, reward, effective, locked, st.foundation_percentage) {
        Ok(sh) => sh,
        Err(a) => return Err(ContractError::aborted(a)),
    };
    proof {
        lemma_sum_nonneg(pool_votes@);
        lemma_sum_nonneg(vault_votes@);
    }
    let pool_sum = sum_amounts(&pool_votes, total_vote);
    let vault_sum = sum_amounts(&vault_votes, total_vote);
    let (pools_share, vault_share) = match split_emission(pool_sum, sh.distributed, total_vote) {
        Ok(x) => x,
        Err(a) => return Err(ContractError::aborted(a)),
    };
    let pool_rewards = match proportional_shares(&pool_votes, pools_share, pool_sum) {
        Some(x) => x,
        None => return Err(ContractError::aborted(Abort::Overflow)),
    };
    let vault_rewards = match proportional_shares(&vault_votes, vault_share, vault_sum) {
        Some(x) => x,
        None => return Err(ContractError::aborted(Abort::Overflow)),
    };
    let surplus = match &facts.surplus {
        Ok(c) => c.duplicate(),
        Err(e) => return Err(ContractError::Std(e.copy())),
    };
    let cswap = match store.cswap_id.load() {
        Some(c) => c,
        None => return Err(ContractError::not_found("u64")),
    };
    if p.foundation_emission_completed {
        return Err(ContractError::custom("Emission already distributed"));
    }
    if st.foundation_addr.len() == 0 {
        return Err(ContractError::custom("No foundation address found"));
    }
    let app_id = p.app_id;
    let completed = match store.completed_proposals.load(&app_id) {
        Some(l) => {
            let mut l = l;
            l.push(pid);
            l
        },
        None => {
            let mut l: Vec<u64> = Vec::new();
            l.push(pid);
            l
        },
    };
    proof {
        match store.completed_proposals.get(app_id) {
            Some(l) => {},
            None => {},
        }
        lemma_deep_view_u64(&completed);
        assert(completed@ =~= completed_after(store, app_id, pid));
    }
    let mut messages: Vec<CosmosMsg> = Vec::new();
    let ghost m0 = messages.deep_view();
    assert(m0 =~= Seq::<MsgModel>::empty());
    if vault_sum != 0 {
        messages.push(CosmosMsg::Custom(ComdexMessages::MsgEmissionRewards {
            app_id,
            amount: vault_share,
            extended_pair: copy_u64s(&vault_ids),
            voting_ratio: copy_u128s(&vault_votes),
        }));
    }
    let ghost m1 = messages.deep_view();
    if pool_sum != 0 {
        messages.push(CosmosMsg::Custom(ComdexMessages::MsgEmissionPoolRewards {
            app_id,
            cswap_app_id: cswap,
            amount: pools_share,
            pools: copy_u64s(&pool_ids),
            voting_ratio: copy_u128s(&pool_votes),
        }));
    }
    let ghost m2 = messages.deep_view();
    messages.push(CosmosMsg::Custom(ComdexMessages::MsgRebaseMint {
        app_id,
        amount: sh.rebase,
        contract_addr: env.contract.address.clone(),
    }));
    let ghost m3 = messages.deep_view();
    if surplus.amount != 0 {
        messages.push(CosmosMsg::Custom(ComdexMessages::MsgGetSurplusFund {
            app_id,
            asset_id: st.surplus_asset_id,
            contract_addr: env.contract.address.clone(),
            amount: surplus.duplicate(),
        }));
    }
    let ghost m4 = messages.deep_view();
    messages.push(CosmosMsg::Custom(ComdexMessages::MsgFoundationEmission {
        app_id,
        amount: sh.foundation,
        foundation_address: st.foundation_addr.duplicate(),
    }));
    proof {
        let vault_msg = MsgModel::EmissionRewards {
            app_id,
            amount: vault_share,
            extended_pair: split.vault_ids,
            voting_ratio: split.vault_votes,
        };
        let pool_msg = MsgModel::EmissionPoolRewards {
            app_id,
            cswap_app_id: cswap,
            amount: pools_share,
            pools: split.pool_ids,
            voting_ratio: split.pool_votes,
        };
        assert(m1 =~= m0 + opt_msg(vault_sum != 0, vault_msg));
        assert(m2 =~= m1 + opt_msg(pool_sum != 0, pool_msg));
        assert(m4 =~= m3 + opt_msg(surplus.amount != 0, MsgModel::GetSurplusFund {
            app_id,
            asset_id: st.surplus_asset_id,
            contract_addr: env@.contract,
            amount: surplus@,
        }));
        assert(messages.deep_view() =~= opt_msg(vault_sum != 0, vault_msg) + opt_msg(pool_sum != 0, pool_msg)
            + seq![MsgModel::RebaseMint { app_id, amount: sh.rebase, contract_addr: env@.contract }]
            + opt_msg(surplus.amount != 0, MsgModel::GetSurplusFund {
                app_id,
                asset_id: st.surplus_asset_id,
                contract_addr: env@.contract,
                amount: surplus@,
            }) + seq![MsgModel::FoundationEmission {
                app_id,
                amount: sh.foundation,
                foundation_address: st@.foundation_addr,
            }]);
    }
    let mut proposal = p;
    proposal.foundation_distributed = sh.foundation;
    proposal.emission_completed = true;
    proposal.emission_distributed = sh.distributed;
    proposal.rebase_distributed = sh.rebase;
    proposal.total_surplus = surplus;
    proposal.foundation_emission_completed = true;
    let emission = Emission { rewards_pending: sh.pending, distributed_rewards: sh.emitted, ..*em };
    let rewards = EmissionVaultPool {
        app_id,
        pool_ids,
        vault_ids,
        total_emission_rewards: sh.distributed,
        pool_rewards,
        vault_rewards,
    };
    Ok(EmissionResult { proposal, emission, rewards, completed, messages })
}

fn emission_amounts_exec(store: &ContractStore, env: &Env, pid: u64, p: crate::state::Proposal, facts: &EmissionFacts) -> (r: Result<EmissionResult, ContractError>)
    ensures
        match spec_emission_amounts(store, env@, pid, p@, facts) {
            Err(e) => r is Err && r->Err_0@ == e,
            Ok(plan) => r is Ok && result_matches(&r->Ok_0, plan),
        },
{
    let gid = match &facts.gov_token_id {
        Ok(g) => *g,
        Err(e) => return Err(ContractError::Std(e.copy())),
    };
    let denom = match &facts.gov_token_denom {
        Ok(d) => d,
        Err(e) => return Err(ContractError::Std(e.copy())),
    };
    if denom.as_str().is_empty() || gid == 0 {
        return Err(ContractError::custom("Gov token not found"));
    }
    let supply = match store.supply.load_at_height(denom, p.height) {
        Some(s) => s,
        None => return Err(ContractError::aborted(Abort::MissingValue)),
    };
    let total_weight = match &facts.token_supply {
        Ok(t) => *t,
        Err(e) => return Err(ContractError::Std(e.copy())),
    };
    if total_weight == 0 {
        return Err(ContractError::custom("Current Circulating Supply is 0"));
    }
    let st = match store.state.load() {
        Some(s) => s,
        None => return Err(ContractError::not_found("locking_contract::state::State")),
    };
    let vested = match &facts.vested_tokens {
        Ok(v) => *v,
        Err(e) => return Err(ContractError::Std(e.copy())),
    };
    let locked = match locked_ratio(total_weight, vested, supply) {
        Ok(l) => l,
        Err(a) => return Err(ContractError::aborted(a)),
    };
    let em = match store.emission.load(&p.app_id) {
        Some(e) => e,
        None => return Err(ContractError::not_found("locking_contract::state::Emission")),
    };
    let (reward, effective) = match reward_of(&em, locked) {
        Ok(x) => x,
        Err(a) => return Err(ContractError::aborted(a)),
    };
    emission_split_exec(store, env, pid, p, facts, &st, &em, locked, reward, effective)
}

/// The outcome of `emission` from `old` to `new` with answer `r`.
pub open spec fn emission_outcome(old: &ContractStore, new: &ContractStore, r: Result<Response, ContractError>, env: EnvModel, info: MessageInfoModel, proposal_id: u64, facts: &EmissionFacts) -> bool {
    match spec_emission(old, env, info, proposal_id, facts) {
        Err(e) => r is Err && r->Err_0@ == e && ContractStore::agrees(new, old, Set::empty()),
        Ok(plan) => {
            &&& r is Ok
            &&& r->Ok_0@ == (ResponseModel { messages: plan.messages, attributes: seq![("method"@, "emission"@)] })
            &&& new.emission_reward.writes() == old.emission_reward.writes().push((proposal_id, 0, Some(plan.rewards)))
            &&& new.emission.writes() == old.emission.writes().push((plan.proposal.app_id, 0, Some(plan.emission)))
            &&& new.proposal.writes() == old.proposal.writes().push((proposal_id, 0, Some(plan.proposal)))
            &&& new.completed_proposals.writes() == old.completed_proposals.writes().push((plan.proposal.app_id, 0, Some(plan.completed)))
            &&& ContractStore::agrees(new, old, set![Part::EmissionReward, Part::Emission, Part::Proposal, Part::CompletedProposals])
        },
    }
}

/// The emission of proposal `proposal_id`, once its voting period has ended:
/// mints `rewards_pending * emission_rate` of the app's governance token; the
/// part matching the share of locked tokens rebases vtoken holders, the rest
/// less the foundation's percentage goes to vaults and pools by their votes,
/// and the foundation's part is sent. Only the admin may.
///
/// `facts` are the chain's answers about the governance token of the
/// proposal's app, its total supply, the tokens held by the vesting contract
/// and the surplus of the app.
pub fn emission(store: &mut ContractStore, env: &Env, info: &MessageInfo, proposal_id: u64, facts: &EmissionFacts) -> (r: Result<Response, ContractError>)
    ensures
        emission_outcome(old(store), final(store), r, env@, info@, proposal_id, facts),
{
    assert_admin(store, &info.sender)?;
    if info.funds.len() != 0 {
        return Err(ContractError::FundsNotAllowed {});
    }
    let proposal = match store.proposal.load(&proposal_id) {
        Some(p) => p,
        None => return Err(ContractError::not_found("locking_contract::state::Proposal")),
    };
    if proposal.emission_completed {
        return Err(ContractError::custom("Emission already completed"));
    }
    if proposal.voting_end_time.nanos > env.block.time.nanos {
        return Err(ContractError::custom("Proposal Voting Period not ended to execute emission for the proposal"));
    }
    let res = emission_amounts_exec(store, env, proposal_id, proposal, facts)?;
    let EmissionResult { proposal, emission, rewards, completed, messages } = res;
    let app_id = proposal.app_id;
    proof {
        lemma_deep_view_u64(&completed);
    }
    store.emission_reward.save(proposal_id, rewards, 0);
    store.emission.save(app_id, emission, 0);
    store.proposal.save(proposal_id, proposal, 0);
    store.completed_proposals.save(app_id, completed, 0);
    let mut resp = Response::new().add_attribute_str("method", "emission");
    let ghost attrs = resp@.attributes;
    let mut i: usize = 0;
    while i < messages.len()
        invariant
            i <= messages.len(),
            resp@.attributes == attrs,
            resp@.messages == messages.deep_view().subrange(0, i as int),
        decreases messages.len() - i,
    {
        resp = resp.add_message(messages[i].clone_msg());
        proof {
            assert(resp@.messages =~= messages.deep_view().subrange(0, i + 1));
        }
        i = i + 1;
    }
    proof {
        assert(messages.deep_view().subrange(0, messages.len() as int) =~= messages.deep_view());
    }
    Ok(resp)
}

/// Sum of `votes`, known not to exceed `bound`.
fn sum_amounts(votes: &Vec<u128>, bound: u128) -> (r: u128)
    requires
        seq_sum(votes@) <= bound,
    ensures
        r == seq_sum(votes@),
{
    let mut acc: u128 = 0;
    let mut i: usize = 0;
    while i < votes.len()
        invariant
            i <= votes.len(),
            acc == seq_sum(votes@.subrange(0, i as int)),
            seq_sum(votes@) <= bound,
        decreases votes.len() - i,
    {
        proof {
            assert(votes@.subrange(0, i + 1).drop_last() =~= votes@.subrange(0, i as int));
            lemma_sum_prefix(votes@, i + 1);
        }
        acc = acc + votes[i];
        i = i + 1;
    }
    assert(votes@.subrange(0, votes.len() as int) =~= votes@);
    acc
}

/// The sum of a prefix is at most the sum.
proof fn lemma_sum_prefix(s: Seq<u128>, i: int)
    requires
        0 <= i <= s.len(),
    ensures
        seq_sum(s.subrange(0, i)) <= seq_sum(s),
        seq_sum(s.subrange(0, i)) >= 0,
    decreases s.len() - i,
{
    if i < s.len() {
        lemma_sum_prefix(s, i + 1);
        assert(s.subrange(0, i + 1).drop_last() =~= s.subrange(0, i));
    } else {
        assert(s.subrange(0, i) =~= s);
    }
    lemma_sum_nonneg(s.subrange(0, i));
}

proof fn lemma_sum_nonneg(s: Seq<u128>)
    ensures
        seq_sum(s) >= 0,
    decreases s.len(),
{
    if s.len() > 0 {
        lemma_sum_nonneg(s.drop_last());
    }
}

} // verus!
