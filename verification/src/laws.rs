//! Properties of the contract that relate several operations, or hold of
//! every state.
use crate::contract::{locked, spec_lock, supply_change, LockPlan};
use crate::error::{custom, ContractError};
use crate::response::Response;
use crate::rewards::{
    claim_marks, claim_outcome, claim_response, claimed_of, coin_sort_of, completed_of, kept_sorted, reward_over,
    spec_bribe_reward_proposal, u64_sort_of,
};
use crate::state::CoinModel;
use crate::store::Part;
use crate::voting::{ratio_sum, spec_vote_pairs};
use crate::decimal::{spec_multiply_ratio, DECIMAL_FRACTIONAL};
use crate::coins::spec_add_coin;
use crate::voting::bribe_proposal_outcome;
use crate::coins::first_of_denom;
use crate::contract::{has_duplicates, raise_outcome, spec_raise};
use crate::dispatch::{execute_outcome, ChainAnswers};
use crate::msg::ExecuteMsg;
use crate::voting::{all_in, spec_vote, vote_outcome, vote_updates, weight_sum};
use crate::state::{DelegationModel, UserDelegationInfoModel, VotePair};
use crate::delegated::{delegate_outcome, delegation_index, spec_delegate, spec_undelegate, undelegate_outcome, DELEGATION_DURATION};
use crate::delegated::{claim_delegated_outcome, protocol_fee_outcome, spec_delegator_share};
use crate::rebase::{gov_denom, period_amount, rebase_locks, rebase_outcome, spec_rebase, spec_rebase_amount, GovTokenFacts};
use crate::emission::{
    completed_after, emission_outcome, foundation_outcome, spec_emission, spec_foundation, EmissionFacts,
};
use crate::contract::is_admin_spec;
use crate::response::ComdexMessages;
use crate::table::Write;
use crate::emission::{seq_sum, spec_emission_split, spec_locked_ratio, spec_reward, spec_shares, spec_shares_of, spec_split_emission, split_votes};
use crate::env::{EnvModel, MessageInfoModel};
use crate::decimal::Decimal;
use crate::error::ErrorModel;
use crate::model::{Duplicate, StoreKey};
use crate::state::{Emission, LockingPeriod, TokenSupply, VtokenModel};
use crate::store::ContractStore;
use crate::table::{latest, lemma_latest_push, no_bound, Table};
use crate::transfer::{not_of_period, of_period};
use crate::voting::vtoken_power;
use crate::state::DelegationStats;
use crate::withdraw::{locked_part, spec_withdraw, token_sum, unlocked_part, withdraw_outcome};
use vstd::prelude::*;

verus! {

/// A read gives back what the last write wrote: after writing `v` for `k`
/// at height `h`, `k` holds `v`, and so does the content of `k` at the
/// beginning of every later block; every other key, and `k` at the
/// beginning of blocks up to `h`, read as before.
pub proof fn law_read_after_write<K: StoreKey, V: Duplicate>(t0: &Table<K, V>, t1: &Table<K, V>, k: K::V, h: u64, v: Option<V::V>)
    requires
        t1.writes() == t0.writes().push((k, h, v)),
    ensures
        t1.get(k) == v,
        forall|k2: K::V| k2 != k ==> #[trigger] t1.get(k2) == t0.get(k2),
        forall|h2: u64| h < h2 ==> #[trigger] t1.get_at(k, h2) == v,
        forall|h2: u64| h2 <= h ==> #[trigger] t1.get_at(k, h2) == t0.get_at(k, h2),
        forall|k2: K::V, h2: u64| k2 != k ==> #[trigger] t1.get_at(k2, h2) == t0.get_at(k2, h2),
{
    lemma_latest_push(t0.writes(), (k, h, v), k, no_bound());
    assert forall|k2: K::V| k2 != k implies #[trigger] t1.get(k2) == t0.get(k2) by {
        lemma_latest_push(t0.writes(), (k, h, v), k2, no_bound());
    }
    assert forall|h2: u64| h < h2 implies #[trigger] t1.get_at(k, h2) == v by {
        lemma_latest_push(t0.writes(), (k, h, v), k, h2 as int);
    }
    assert forall|h2: u64| h2 <= h implies #[trigger] t1.get_at(k, h2) == t0.get_at(k, h2) by {
        lemma_latest_push(t0.writes(), (k, h, v), k, h2 as int);
    }
    assert forall|k2: K::V, h2: u64| k2 != k implies #[trigger] t1.get_at(k2, h2) == t0.get_at(k2, h2) by {
        lemma_latest_push(t0.writes(), (k, h, v), k2, h2 as int);
    }
}

/// Taking away from the supply what was just added to it gives back the
/// supply as it was (an empty supply when there was none).
pub proof fn law_supply_round_trip(cur: Option<TokenSupply>, vquantity: u128, quantity: u128)
    requires
        supply_change(cur, vquantity, quantity, true) is Ok,
    ensures
        supply_change(Some(supply_change(cur, vquantity, quantity, true)->Ok_0), vquantity, quantity, false)
            == Ok::<TokenSupply, ErrorModel>(match cur {
            Some(s) => s,
            None => TokenSupply { token: 0, vtoken: 0 },
        }),
{
}

proof fn lemma_split_sums(l: Seq<VtokenModel>, lp: LockingPeriod)
    ensures
        token_sum(of_period(l, lp)) + token_sum(not_of_period(l, lp)) == token_sum(l),
        vtoken_power(of_period(l, lp)) + vtoken_power(not_of_period(l, lp)) == vtoken_power(l),
        of_period(l, lp).len() + not_of_period(l, lp).len() == l.len(),
    decreases l.len(),
{
    if l.len() > 0 {
        lemma_split_sums(l.drop_last(), lp);
        let a = of_period(l.drop_last(), lp);
        let b = not_of_period(l.drop_last(), lp);
        assert(a.push(l.last()).drop_last() =~= a);
        assert(b.push(l.last()).drop_last() =~= b);
    }
}

/// A transfer of the vtokens of one locking period neither creates nor
/// destroys tokens: what moves and what stays hold, together, exactly the
/// locks, the tokens and the vtokens of the owner.
pub proof fn law_transfer_conserves(l: Seq<VtokenModel>, lp: LockingPeriod)
    ensures
        of_period(l, lp).len() + not_of_period(l, lp).len() == l.len(),
        token_sum(of_period(l, lp)) + token_sum(not_of_period(l, lp)) == token_sum(l),
        vtoken_power(of_period(l, lp)) + vtoken_power(not_of_period(l, lp)) == vtoken_power(l),
        forall|i: int| 0 <= i < of_period(l, lp).len() ==> #[trigger] of_period(l, lp)[i].period == lp,
        forall|i: int| 0 <= i < not_of_period(l, lp).len() ==> #[trigger] not_of_period(l, lp)[i].period != lp,
{
    lemma_split_sums(l, lp);
    lemma_periods(l, lp);
}

proof fn lemma_periods(l: Seq<VtokenModel>, lp: LockingPeriod)
    ensures
        forall|i: int| 0 <= i < of_period(l, lp).len() ==> #[trigger] of_period(l, lp)[i].period == lp,
        forall|i: int| 0 <= i < not_of_period(l, lp).len() ==> #[trigger] not_of_period(l, lp)[i].period != lp,
    decreases l.len(),
{
    if l.len() > 0 {
        lemma_periods(l.drop_last(), lp);
    }
}

/// The emission's shares account for all of it: the foundation's share and
/// the distributed share make up the effective emission, and what leaves
/// the pending rewards is what is counted as emitted.
pub proof fn law_emission_shares(em: Emission, reward: u128, effective: u128, locked: u128, foundation_pct: Decimal)
    requires
        spec_shares_of(em, reward, effective, locked, foundation_pct) is Ok,
    ensures
        ({
            let sh = spec_shares_of(em, reward, effective, locked, foundation_pct)->Ok_0;
            &&& sh.foundation + sh.distributed == effective
            &&& sh.pending + sh.emitted == em.rewards_pending + em.distributed_rewards
            &&& sh.emitted - em.distributed_rewards == reward
        }),
{
}

/// The distributed emission is split between pools and vaults without
/// remainder, the pools getting no more than all of it.
pub proof fn law_emission_split(pool_votes: u128, distributed: u128, total_vote: u128)
    requires
        spec_split_emission(pool_votes, distributed, total_vote) is Ok,
    ensures
        ({
            let (pools, vaults) = spec_split_emission(pool_votes, distributed, total_vote)->Ok_0;
            pools + vaults == distributed && pools <= distributed
        }),
{
}

/// Tokens locked by an owner's first lock of a denomination can be
/// withdrawn in full once the locking period has ended, and the withdrawal
/// brings the total supply of the denomination back to what it was before
/// the lock; before the end nothing can be withdrawn.
pub proof fn law_lock_then_withdraw(
    s0: &ContractStore,
    s1: &ContractStore,
    env1: EnvModel,
    env2: EnvModel,
    sender: Seq<char>,
    funds: crate::state::CoinModel,
    lp: LockingPeriod,
)
    requires
        spec_lock(s0, env1, sender, funds, lp) is Ok,
        locked(s0, s1, env1, sender, funds, spec_lock(s0, env1, sender, funds, lp)->Ok_0),
        s0.vtokens.get((sender, funds.denom)) is None,
        s0.delegated.get(sender) is None,
    ensures
        ({
            let p = spec_lock(s0, env1, sender, funds, lp)->Ok_0;
            let info = MessageInfoModel { sender, funds: seq![] };
            let w = spec_withdraw(s1, env2, info, funds.denom);
            &&& env2.time.nanos > p.vtoken.end_time.nanos ==> {
                &&& w is Ok
                &&& w->Ok_0.amount == funds.amount
                &&& w->Ok_0.remaining.len() == 0
                &&& w->Ok_0.delegation is None
                &&& w->Ok_0.supply == match s0.supply.get(funds.denom) {
                    Some(s) => s,
                    None => TokenSupply { token: 0, vtoken: 0 },
                }
            }
            &&& env2.time.nanos <= p.vtoken.end_time.nanos ==> w is Err
        }),
{
    let p = spec_lock(s0, env1, sender, funds, lp)->Ok_0;
    let key = (sender, funds.denom);
    lemma_latest_push(s0.vtokens.writes(), (key, env1.height, Some(seq![p.vtoken])), key, no_bound());
    lemma_latest_push(s0.supply.writes(), (funds.denom, env1.height, Some(p.supply)), funds.denom, no_bound());
    assert(crate::contract::appended_vtokens(s0, key, p.vtoken) == seq![p.vtoken]);
    let l = seq![p.vtoken];
    assert(l.drop_last() =~= Seq::<VtokenModel>::empty());
    assert(s1.vtokens.get(key) == Some(l));
    assert(s1.delegated.get(sender) is None);
    assert(s1.supply.get(funds.denom) == Some(p.supply));
    let st = s0.state.get()->Some_0;
    let pw = crate::contract::period_of(st, lp);
    let vamount = crate::decimal::spec_multiply_ratio(funds.amount, pw.weight.atomics, crate::decimal::DECIMAL_FRACTIONAL)->Some_0;
    assert(p.vtoken.token == funds);
    assert(p.vtoken.vtoken.amount == vamount);
    assert(p.supply == supply_change(s0.supply.get(funds.denom), vamount, funds.amount, true)->Ok_0);
    law_supply_round_trip(s0.supply.get(funds.denom), vamount, funds.amount);
    assert(l.last() == p.vtoken);
    assert(vtoken_power(l.drop_last()) == 0);
    assert(vtoken_power(l) == vamount);
    let now = env2.time.nanos;
    if p.vtoken.end_time.nanos < now {
        assert(crate::withdraw::unlocked_part(l.drop_last(), now) =~= Seq::<VtokenModel>::empty());
        assert(crate::withdraw::unlocked_part(l, now) =~= l);
        assert(token_sum(l.drop_last()) == 0);
        assert(crate::withdraw::locked_part(l.drop_last(), now) =~= Seq::<VtokenModel>::empty());
        assert(crate::withdraw::locked_part(l, now) =~= Seq::<VtokenModel>::empty());
        assert(token_sum(l) == funds.amount);
    } else {
        assert(crate::withdraw::unlocked_part(l.drop_last(), now) =~= Seq::<VtokenModel>::empty());
        assert(crate::withdraw::unlocked_part(l, now) =~= Seq::<VtokenModel>::empty());
    }
}

/// A voter is paid the bribes of a proposal at most once: once its claim
/// of proposal `pid` has succeeded, a new claim of `pid` is refused and
/// changes nothing.
pub proof fn law_claim_once(
    s0: &ContractStore,
    s1: &ContractStore,
    s2: &ContractStore,
    r1: Result<Response, ContractError>,
    r2: Result<Response, ContractError>,
    info: MessageInfoModel,
    app_id: u64,
    pid: u64,
)
    requires
        claim_outcome(s0, s1, r1, info, app_id, Some(pid)),
        r1 is Ok,
        claim_outcome(s1, s2, r2, info, app_id, Some(pid)),
    ensures
        r2 is Err,
        r2->Err_0@ == custom("Already claimed"),
        ContractStore::agrees(s2, s1, Set::empty()),
{
    lemma_latest_push(s0.voters_claim.writes(), ((info.sender, pid), 0, Some(true)), (info.sender, pid), no_bound());
}

proof fn lemma_claim_marks(w: Seq<Write<(Seq<char>, u64), bool>>, sender: Seq<char>, ps: Seq<u64>, p: u64)
    requires
        ps.contains(p),
    ensures
        latest(claim_marks(w, sender, ps), (sender, p), no_bound()) == Some(true),
    decreases ps.len(),
{
    let last = ps.last();
    lemma_latest_push(claim_marks(w, sender, ps.drop_last()), ((sender, last), 0, Some(true)), (sender, p), no_bound());
    if last != p {
        let i = choose|i: int| 0 <= i < ps.len() && ps[i] == p;
        assert(ps.drop_last()[i] == p);
        lemma_claim_marks(w, sender, ps.drop_last(), p);
    }
}

/// After a voter has claimed the bribes of all its completed proposals of
/// an app, each proposal recorded as claimed is refused to a new claim.
pub proof fn law_claim_all_then_one(
    s0: &ContractStore,
    s1: &ContractStore,
    s2: &ContractStore,
    r1: Result<Response, ContractError>,
    r2: Result<Response, ContractError>,
    info: MessageInfoModel,
    app_id: u64,
    pid: u64,
)
    requires
        claim_outcome(s0, s1, r1, info, app_id, None),
        r1 is Ok,
        completed_of(s1, app_id).contains(pid),
        claimed_of(s1, info.sender).contains(pid),
        claim_outcome(s1, s2, r2, info, app_id, Some(pid)),
    ensures
        r2 is Err,
        r2->Err_0@ == custom("Already claimed"),
        ContractStore::agrees(s2, s1, Set::empty()),
{
    let c0 = claimed_of(s0, info.sender);
    let (coins, c) = reward_over(s0, info.sender, completed_of(s0, app_id), seq![], c0)->Ok_0;
    let (sc, cl) = choose|sc: Seq<CoinModel>, cl: Seq<u64>|
        #![trigger coin_sort_of(sc, coins), kept_sorted(cl, c0, c)]
        {
            &&& coin_sort_of(sc, coins)
            &&& kept_sorted(cl, c0, c)
            &&& r1->Ok_0@ == claim_response(info.sender, sc)
            &&& s1.voters_claimed_proposals.writes() == s0.voters_claimed_proposals.writes().push((info.sender, 0, Some(cl)))
            &&& s1.voters_claim.writes() == claim_marks(s0.voters_claim.writes(), info.sender, cl)
            &&& ContractStore::agrees(s1, s0, set![Part::VotersClaim, Part::VotersClaimedProposals])
        };
    lemma_latest_push(s0.voters_claimed_proposals.writes(), (info.sender, 0, Some(cl)), info.sender, no_bound());
    assert(claimed_of(s1, info.sender) == cl);
    lemma_claim_marks(s0.voters_claim.writes(), info.sender, cl, pid);
}

/// A delegator is paid its share of the bribes of a proposal through a
/// delegated address at most once: after a successful claim of proposal
/// `pid`, a new claim of `pid` is refused and changes nothing.
pub proof fn law_delegated_claim_once(
    s0: &ContractStore,
    s1: &ContractStore,
    s2: &ContractStore,
    r1: Result<Response, ContractError>,
    r2: Result<Response, ContractError>,
    info: MessageInfoModel,
    daddr: Seq<char>,
    app_id: u64,
    pid: u64,
)
    requires
        claim_delegated_outcome(s0, s1, r1, info, daddr, Some(pid), app_id),
        r1 is Ok,
        claim_delegated_outcome(s1, s2, r2, info, daddr, Some(pid), app_id),
    ensures
        r2 is Err,
        r2->Err_0@ == custom("Already Claimed"),
        ContractStore::agrees(s2, s1, Set::empty()),
{
    lemma_latest_push(s0.delegator_claim.writes(), ((info.sender, pid), 0, Some(true)), (info.sender, pid), no_bound());
}

/// A delegated address collects its protocol fees on a proposal at most
/// once: after a successful collection on `pid`, a new one is refused and
/// changes nothing.
pub proof fn law_protocol_fee_once(
    s0: &ContractStore,
    s1: &ContractStore,
    s2: &ContractStore,
    r1: Result<Response, ContractError>,
    r2: Result<Response, ContractError>,
    info: MessageInfoModel,
    daddr: Seq<char>,
    app_id: u64,
    pid: u64,
)
    requires
        protocol_fee_outcome(s0, s1, r1, info, daddr, app_id, pid),
        r1 is Ok,
        protocol_fee_outcome(s1, s2, r2, info, daddr, app_id, pid),
    ensures
        r2 is Err,
        r2->Err_0@ == custom("Voter already claimed"),
        ContractStore::agrees(s2, s1, Set::empty()),
{
    lemma_latest_push(s0.voters_claim.writes(), ((info.sender, pid), 0, Some(true)), (info.sender, pid), no_bound());
}

/// A holder claims its rebase of a proposal at most once: after a
/// successful rebase of `pid`, a new one is refused and changes nothing.
pub proof fn law_rebase_once(
    s0: &ContractStore,
    s1: &ContractStore,
    s2: &ContractStore,
    r1: Result<Response, ContractError>,
    r2: Result<Response, ContractError>,
    env1: EnvModel,
    env2: EnvModel,
    info: MessageInfoModel,
    pid: u64,
    gov1: &GovTokenFacts,
    gov2: &GovTokenFacts,
)
    requires
        rebase_outcome(s0, s1, r1, env1, info, pid, gov1),
        r1 is Ok,
        rebase_outcome(s1, s2, r2, env2, info, pid, gov2),
    ensures
        r2 is Err,
        r2->Err_0@ == custom("Already claimed rebase"),
        ContractStore::agrees(s2, s1, Set::empty()),
{
    lemma_latest_push(s0.rebase_claimed.writes(), ((info.sender, pid), 0, Some(true)), (info.sender, pid), no_bound());
}

/// The emission of a proposal happens at most once: after a successful
/// emission of `pid`, a new emission of it is refused and changes nothing.
pub proof fn law_emission_once(
    s0: &ContractStore,
    s1: &ContractStore,
    s2: &ContractStore,
    r1: Result<Response, ContractError>,
    r2: Result<Response, ContractError>,
    env1: EnvModel,
    env2: EnvModel,
    info1: MessageInfoModel,
    info2: MessageInfoModel,
    pid: u64,
    facts1: &EmissionFacts,
    facts2: &EmissionFacts,
)
    requires
        emission_outcome(s0, s1, r1, env1, info1, pid, facts1),
        r1 is Ok,
        emission_outcome(s1, s2, r2, env2, info2, pid, facts2),
    ensures
        r2 is Err,
        ContractStore::agrees(s2, s1, Set::empty()),
{
    let plan = spec_emission(s0, env1, info1, pid, facts1)->Ok_0;
    lemma_latest_push(s0.proposal.writes(), (pid, 0, Some(plan.proposal)), pid, no_bound());
    assert(plan.proposal.emission_completed);
}

/// Only one proposal of an app is open at a time: while the proposal just
/// raised is in its voting period, raising another one for the same app is
/// refused and changes nothing.
pub proof fn law_one_open_proposal(
    s0: &ContractStore,
    s1: &ContractStore,
    s2: &ContractStore,
    r1: Result<Response, ContractError>,
    r2: Result<Response, ContractError>,
    env1: EnvModel,
    env2: EnvModel,
    info1: MessageInfoModel,
    info2: MessageInfoModel,
    app_id: u64,
    pairs1: Seq<u64>,
    pairs2: Seq<u64>,
)
    requires
        raise_outcome(s0, s1, r1, env1, info1, app_id, pairs1),
        r1 is Ok,
        env2.time.nanos < spec_raise(s0, env1, info1, app_id, pairs1)->Ok_0.1.voting_end_time.nanos,
        raise_outcome(s1, s2, r2, env2, info2, app_id, pairs2),
    ensures
        r2 is Err,
        ContractStore::agrees(s2, s1, Set::empty()),
{
    let (id, p) = spec_raise(s0, env1, info1, app_id, pairs1)->Ok_0;
    lemma_latest_push(s0.app_current_proposal.writes(), (app_id, 0, Some(id)), app_id, no_bound());
    lemma_latest_push(s0.proposal.writes(), (id, 0, Some(p)), id, no_bound());
}

/// Proposals are numbered one after the other: the proposal raised after
/// proposal `id` is proposal `id + 1`.
pub proof fn law_consecutive_proposals(
    s0: &ContractStore,
    s1: &ContractStore,
    s2: &ContractStore,
    r1: Result<Response, ContractError>,
    r2: Result<Response, ContractError>,
    env1: EnvModel,
    env2: EnvModel,
    info1: MessageInfoModel,
    info2: MessageInfoModel,
    app1: u64,
    app2: u64,
    pairs1: Seq<u64>,
    pairs2: Seq<u64>,
)
    requires
        raise_outcome(s0, s1, r1, env1, info1, app1, pairs1),
        r1 is Ok,
        raise_outcome(s1, s2, r2, env2, info2, app2, pairs2),
        r2 is Ok,
    ensures
        spec_raise(s1, env2, info2, app2, pairs2)->Ok_0.0 == spec_raise(s0, env1, info1, app1, pairs1)->Ok_0.0 + 1,
{
    let (id, p) = spec_raise(s0, env1, info1, app1, pairs1)->Ok_0;
    lemma_latest_push(s0.proposal_count.writes(), ((), 0, Some(id)), (), no_bound());
}

/// A new vote on a proposal replaces the voter's earlier vote: after voting
/// twice, the proposal's total vote is its total before the first vote plus
/// the weights of the second vote, which is the vote stored.
pub proof fn law_revote_replaces(
    s0: &ContractStore,
    s1: &ContractStore,
    s2: &ContractStore,
    r1: Result<Response, ContractError>,
    r2: Result<Response, ContractError>,
    env1: EnvModel,
    env2: EnvModel,
    info: MessageInfoModel,
    pid: u64,
    pairs1: Seq<u64>,
    denom1: Seq<char>,
    ratios1: Seq<Decimal>,
    pairs2: Seq<u64>,
    denom2: Seq<char>,
    ratios2: Seq<Decimal>,
)
    requires
        vote_outcome(s0, s1, r1, env1, info, pid, pairs1, denom1, ratios1),
        r1 is Ok,
        vote_outcome(s1, s2, r2, env2, info, pid, pairs2, denom2, ratios2),
        r2 is Ok,
        s0.voters_vote.get((info.sender, pid)) != Some(true),
    ensures
        ({
            let v2 = spec_vote(s1, env2, info, pid, pairs2, denom2, ratios2)->Ok_0.vote;
            &&& s2.voters_proposal.get((info.sender, pid)) == Some(v2)
            &&& s2.proposal.get(pid)->Some_0.total_voted_weight == s0.proposal.get(pid)->Some_0.total_voted_weight + weight_sum(v2.votes)
        }),
{
    let plan1 = spec_vote(s0, env1, info, pid, pairs1, denom1, ratios1)->Ok_0;
    let plan2 = spec_vote(s1, env2, info, pid, pairs2, denom2, ratios2)->Ok_0;
    let key = (info.sender, pid);
    lemma_latest_push(s0.voters_vote.writes(), (key, 0, Some(true)), key, no_bound());
    lemma_latest_push(s0.voters_proposal.writes(), (key, 0, Some(plan1.vote)), key, no_bound());
    lemma_latest_push(s0.proposal.writes(), (pid, 0, Some(plan1.proposal)), pid, no_bound());
    lemma_latest_push(s1.voters_proposal.writes(), (key, 0, Some(plan2.vote)), key, no_bound());
    lemma_latest_push(s1.proposal.writes(), (pid, 0, Some(plan2.proposal)), pid, no_bound());
    assert(weight_sum(Seq::<VotePair>::empty()) == 0);
    crate::voting::lemma_sums_nonneg(seq![], seq![], plan1.vote.votes);
    crate::voting::lemma_sums_nonneg(seq![], seq![], plan2.vote.votes);
    let p0 = s0.proposal.get(pid)->Some_0;
    assert(plan1.proposal.total_voted_weight == p0.total_voted_weight + weight_sum(plan1.vote.votes));
    assert(s1.voters_vote.get(key) == Some(true));
    assert(s1.voters_proposal.get(key) == Some(plan1.vote));
    assert(s1.proposal.get(pid) == Some(plan1.proposal));
    assert(plan2.proposal.total_voted_weight == plan1.proposal.total_voted_weight - weight_sum(plan1.vote.votes) + weight_sum(plan2.vote.votes));
}

proof fn lemma_delegation_index_push(dels: Seq<DelegationModel>, d: DelegationModel, to: Seq<char>)
    requires
        delegation_index(dels, to) is None,
        d.delegated_to == to,
    ensures
        delegation_index(dels.push(d), to) == Some(dels.len() as int),
    decreases dels.len(),
{
    if dels.len() > 0 {
        assert(dels.push(d).drop_first() =~= dels.drop_first().push(d));
        lemma_delegation_index_push(dels.drop_first(), d, to);
    } else {
        assert(dels.push(d)[0] == d);
    }
}

/// Undoing a new delegation once its period has passed gives the delegated
/// address back the totals it had before the delegation, and the delegator
/// back its earlier list of delegations and total cast.
pub proof fn law_delegate_then_undelegate(
    s0: &ContractStore,
    s1: &ContractStore,
    s2: &ContractStore,
    r1: Result<Response, ContractError>,
    r2: Result<Response, ContractError>,
    env1: EnvModel,
    env2: EnvModel,
    info: MessageInfoModel,
    daddr: Seq<char>,
    denom: Seq<char>,
    ratio: Decimal,
)
    requires
        delegate_outcome(s0, s1, r1, env1, info, daddr, denom, ratio),
        r1 is Ok,
        match s0.delegated.get(info.sender) {
            Some(u) => delegation_index(u.delegations, daddr) is None,
            None => true,
        },
        env2.time.nanos >= env1.time.nanos + DELEGATION_DURATION * 1_000_000_000,
        undelegate_outcome(s1, s2, r2, env2, info, daddr),
    ensures
        r2 is Ok,
        s2.delegation_stats.get(daddr) == s0.delegation_stats.get(daddr),
        s2.delegated.get(info.sender)->Some_0.delegations == match s0.delegated.get(info.sender) {
            Some(u) => u.delegations,
            None => Seq::<DelegationModel>::empty(),
        },
        s2.delegated.get(info.sender)->Some_0.total_casted == match s0.delegated.get(info.sender) {
            Some(u) => u.total_casted,
            None => 0,
        },
{
    let plan = spec_delegate(s0, env1, info, daddr, denom, ratio)->Ok_0;
    let user0 = match s0.delegated.get(info.sender) {
        Some(u) => u,
        None => UserDelegationInfoModel { total_casted: 0, delegations: seq![] },
    };
    let d = plan.user.delegations.last();
    lemma_latest_push(s0.delegation_stats.writes(), (daddr, env1.height, Some(plan.stats)), daddr, no_bound());
    lemma_latest_push(s0.delegated.writes(), (info.sender, env1.height, Some(plan.user)), info.sender, no_bound());
    assert(plan.user.delegations == user0.delegations.push(d));
    lemma_delegation_index_push(user0.delegations, d, daddr);
    let plan2 = spec_undelegate(s1, env2, info, daddr)->Ok_0;
    lemma_latest_push(s1.delegation_stats.writes(), (daddr, env2.height, Some(plan2.stats)), daddr, no_bound());
    lemma_latest_push(s1.delegated.writes(), (info.sender, env2.height, Some(plan2.user)), info.sender, no_bound());
    assert(plan.user.delegations.update(user0.delegations.len() as int, plan.user.delegations.last()).drop_last() =~= user0.delegations);
}

/// Total amount of the coins of `denom` in `l`.
pub open spec fn denom_total(l: Seq<CoinModel>, denom: Seq<char>) -> int
    decreases l.len(),
{
    if l.len() == 0 {
        0
    } else {
        denom_total(l.drop_last(), denom) + if l.last().denom == denom {
            l.last().amount as int
        } else {
            0
        }
    }
}

proof fn lemma_denom_total_update(l: Seq<CoinModel>, i: int, c: CoinModel, denom: Seq<char>)
    requires
        0 <= i < l.len(),
        l[i].denom == c.denom,
    ensures
        denom_total(l.update(i, c), denom) == denom_total(l, denom) + if c.denom == denom {
            c.amount - l[i].amount
        } else {
            0
        },
    decreases l.len(),
{
    if i < l.len() - 1 {
        assert(l.update(i, c).drop_last() =~= l.drop_last().update(i, c));
        lemma_denom_total_update(l.drop_last(), i, c, denom);
    } else {
        assert(l.update(i, c).drop_last() =~= l.drop_last());
    }
}

/// Adding a coin to a list of coins adds its amount to the total of its
/// denomination and leaves the totals of the other denominations as they
/// were.
pub proof fn law_add_coin(l: Seq<CoinModel>, c: CoinModel, denom: Seq<char>)
    requires
        spec_add_coin(l, c) is Some,
    ensures
        denom_total(spec_add_coin(l, c)->Some_0, denom) == denom_total(l, denom) + if c.denom == denom {
            c.amount as int
        } else {
            0
        },
{
    crate::coins::lemma_first_of_denom(l, c.denom);
    match crate::coins::first_of_denom(l, c.denom) {
        Some(i) => {
            lemma_denom_total_update(l, i, CoinModel { denom: c.denom, amount: (l[i].amount + c.amount) as u128 }, denom);
        },
        None => {
            assert(l.push(c).drop_last() =~= l);
        },
    }
}

/// A bribe adds its amount to the bribes of its denomination deposited on
/// the pair, and leaves the other denominations as they were.
pub proof fn law_bribe_adds(
    s0: &ContractStore,
    s1: &ContractStore,
    r: Result<Response, ContractError>,
    env: EnvModel,
    info: MessageInfoModel,
    pid: u64,
    pair: u64,
    coin: CoinModel,
    denom: Seq<char>,
)
    requires
        bribe_proposal_outcome(s0, s1, r, env, info, pid, pair, coin),
        r is Ok,
    ensures
        ({
            let before = match s0.bribes_by_proposal.get((pid, pair)) {
                Some(l) => l,
                None => seq![],
            };
            &&& s1.bribes_by_proposal.get((pid, pair)) is Some
            &&& denom_total(s1.bribes_by_proposal.get((pid, pair))->Some_0, denom) == denom_total(before, denom) + if coin.denom == denom {
                coin.amount as int
            } else {
                0
            }
        }),
{
    let before = match s0.bribes_by_proposal.get((pid, pair)) {
        Some(l) => l,
        None => seq![],
    };
    let l = spec_add_coin(before, coin)->Some_0;
    lemma_latest_push(s0.bribes_by_proposal.writes(), ((pid, pair), 0, Some(l)), (pid, pair), no_bound());
    law_add_coin(before, coin, denom);
}

proof fn lemma_vote_pairs_bound(pairs: Seq<u64>, ratios: Seq<Decimal>, power: u128)
    requires
        pairs.len() == ratios.len(),
        spec_vote_pairs(pairs, ratios, power) is Some,
    ensures
        weight_sum(spec_vote_pairs(pairs, ratios, power)->Some_0) * DECIMAL_FRACTIONAL <= power * ratio_sum(ratios),
        weight_sum(spec_vote_pairs(pairs, ratios, power)->Some_0) >= 0,
        ratio_sum(ratios) >= 0,
    decreases pairs.len(),
{
    if pairs.len() > 0 {
        lemma_vote_pairs_bound(pairs.drop_last(), ratios.drop_last(), power);
        let prev = spec_vote_pairs(pairs.drop_last(), ratios.drop_last(), power)->Some_0;
        let r = ratios.last().atomics;
        let w = spec_multiply_ratio(power, r, DECIMAL_FRACTIONAL)->Some_0;
        let v = prev.push(VotePair { extended_pair: pairs.last(), vote_ratio: ratios.last(), vote_weight: w });
        assert(v.drop_last() =~= prev);
        let f = DECIMAL_FRACTIONAL as int;
        let x = power as int * r as int;
        assert(w as int == x / f);
        assert((x / f) * f <= x) by (nonlinear_arith)
            requires
                f > 0,
                x >= 0,
        ;
        let a = weight_sum(prev);
        let b = ratio_sum(ratios.drop_last());
        assert((a + w) * f <= power * (b + r)) by (nonlinear_arith)
            requires
                a * f <= power * b,
                w * f <= power * r,
        ;
    } else {
        assert(spec_vote_pairs(pairs, ratios, power)->Some_0 =~= Seq::<VotePair>::empty());
    }
}

/// A vote never spends more than the voter's voting power: the weights of
/// a stored vote add up to at most the power it was cast with.
pub proof fn law_vote_within_power(
    s0: &ContractStore,
    s1: &ContractStore,
    r: Result<Response, ContractError>,
    env: EnvModel,
    info: MessageInfoModel,
    pid: u64,
    pairs: Seq<u64>,
    denom: Seq<char>,
    ratios: Seq<Decimal>,
)
    requires
        vote_outcome(s0, s1, r, env, info, pid, pairs, denom, ratios),
        r is Ok,
    ensures
        s1.voters_proposal.get((info.sender, pid)) is Some,
        weight_sum(s1.voters_proposal.get((info.sender, pid))->Some_0.votes) <= s1.voters_proposal.get((info.sender, pid))->Some_0.voting_power_total,
{
    let plan = spec_vote(s0, env, info, pid, pairs, denom, ratios)->Ok_0;
    let key = (info.sender, pid);
    lemma_latest_push(s0.voters_proposal.writes(), (key, 0, Some(plan.vote)), key, no_bound());
    let power = plan.vote.voting_power_total;
    lemma_vote_pairs_bound(pairs, ratios, power);
    let ws = weight_sum(plan.vote.votes);
    let rs = ratio_sum(ratios);
    let f = DECIMAL_FRACTIONAL as int;
    assert(ws <= power) by (nonlinear_arith)
        requires
            ws * f <= power * rs,
            rs <= f,
            f > 0,
            power >= 0,
    ;
}

/// An emission moves rewards of the proposal's app from pending to
/// distributed: their sum stays what it was.
pub proof fn law_emission_conserves(
    s0: &ContractStore,
    s1: &ContractStore,
    r: Result<Response, ContractError>,
    env: EnvModel,
    info: MessageInfoModel,
    pid: u64,
    facts: &EmissionFacts,
)
    requires
        emission_outcome(s0, s1, r, env, info, pid, facts),
        r is Ok,
    ensures
        ({
            let app = s0.proposal.get(pid)->Some_0.app_id;
            &&& s0.emission.get(app) is Some
            &&& s1.emission.get(app) is Some
            &&& s1.emission.get(app)->Some_0.rewards_pending + s1.emission.get(app)->Some_0.distributed_rewards
                == s0.emission.get(app)->Some_0.rewards_pending + s0.emission.get(app)->Some_0.distributed_rewards
        }),
{
    let plan = spec_emission(s0, env, info, pid, facts)->Ok_0;
    let p = s0.proposal.get(pid)->Some_0;
    assert(plan.proposal.app_id == p.app_id);
    lemma_latest_push(s0.emission.writes(), (p.app_id, 0, Some(plan.emission)), p.app_id, no_bound());
}

/// A list without repeated elements keeps none when its elements are put in
/// another order.
proof fn lemma_no_duplicates_kept(v: Seq<u64>, w: Seq<u64>)
    requires
        v.to_multiset() == w.to_multiset(),
        !has_duplicates(v),
    ensures
        !has_duplicates(w),
{
    assert(v.no_duplicates()) by {
        assert forall|i: int, j: int| 0 <= i < v.len() && 0 <= j < v.len() && i != j implies v[i] != v[j] by {
            if i < j {
                assert(!(v[i] == v[j]));
            } else {
                assert(!(v[j] == v[i]));
            }
        }
    }
    v.lemma_multiset_has_no_duplicates();
    w.lemma_multiset_has_no_duplicates_conv();
}

/// Whether a list holds a repeated element does not depend on the order of
/// its elements: two lists with the same elements, counted with their
/// repetitions, give the same answer (see
/// [`crate::contract::has_duplicate_elements`]).
pub proof fn law_duplicates_ignore_order(v: Seq<u64>, w: Seq<u64>)
    requires
        v.to_multiset() == w.to_multiset(),
    ensures
        has_duplicates(v) == has_duplicates(w),
{
    if !has_duplicates(v) {
        lemma_no_duplicates_kept(v, w);
    }
    if !has_duplicates(w) {
        lemma_no_duplicates_kept(w, v);
    }
}

/// A successful emission of proposal `pid` marks both the emission and the
/// foundation's share of the proposal as done, and appends `pid` to the
/// completed proposals of its app.
pub proof fn law_emission_completes(
    s0: &ContractStore,
    s1: &ContractStore,
    r: Result<Response, ContractError>,
    env: EnvModel,
    info: MessageInfoModel,
    pid: u64,
    facts: &EmissionFacts,
)
    requires
        emission_outcome(s0, s1, r, env, info, pid, facts),
        r is Ok,
    ensures
        s0.proposal.get(pid) is Some,
        s1.proposal.get(pid) is Some,
        s1.proposal.get(pid)->Some_0.app_id == s0.proposal.get(pid)->Some_0.app_id,
        s1.proposal.get(pid)->Some_0.emission_completed,
        s1.proposal.get(pid)->Some_0.foundation_emission_completed,
        s1.completed_proposals.get(s0.proposal.get(pid)->Some_0.app_id)
            == Some(completed_after(s0, s0.proposal.get(pid)->Some_0.app_id, pid)),
        proposals_counted(s0) ==> emission_done(s1, pid),
{
    let plan = spec_emission(s0, env, info, pid, facts)->Ok_0;
    let p = s0.proposal.get(pid)->Some_0;
    lemma_latest_push(s0.proposal.writes(), (pid, 0, Some(plan.proposal)), pid, no_bound());
    lemma_latest_push(
        s0.completed_proposals.writes(),
        (plan.proposal.app_id, 0, Some(plan.completed)),
        plan.proposal.app_id,
        no_bound(),
    );
    assert(plan.proposal.app_id == p.app_id);
    assert(plan.completed == completed_after(s0, p.app_id, pid));
}

/// Once the emission of proposal `pid` is done, every emission of it is
/// refused and changes nothing; the admin, sending no funds, is told that
/// the emission is already completed.
pub proof fn law_completed_emission_refused(
    s: &ContractStore,
    s2: &ContractStore,
    r: Result<Response, ContractError>,
    env: EnvModel,
    info: MessageInfoModel,
    pid: u64,
    facts: &EmissionFacts,
)
    requires
        s.proposal.get(pid) is Some,
        s.proposal.get(pid)->Some_0.emission_completed,
        emission_outcome(s, s2, r, env, info, pid, facts),
    ensures
        r is Err,
        ContractStore::agrees(s2, s, Set::empty()),
        is_admin_spec(s, info.sender) && info.funds.len() == 0 ==> r->Err_0@ == custom("Emission already completed"),
{
}

/// Once the foundation's share of proposal `pid` is sent, every new sending
/// of it is refused and changes nothing; the admin, sending no funds for a
/// proposal whose emission is done, is told that the emission is already
/// distributed.
pub proof fn law_distributed_foundation_refused(
    s: &ContractStore,
    s2: &ContractStore,
    r: Result<Vec<ComdexMessages>, ContractError>,
    info: MessageInfoModel,
    pid: u64,
)
    requires
        s.proposal.get(pid) is Some,
        s.proposal.get(pid)->Some_0.foundation_emission_completed,
        foundation_outcome(s, s2, r, info, pid),
    ensures
        r is Err,
        ContractStore::agrees(s2, s, Set::empty()),
        is_admin_spec(s, info.sender) && info.funds.len() == 0 && s.proposal.get(pid)->Some_0.emission_completed
            ==> r->Err_0@ == custom("Emission already distributed"),
{
}

/// The amount an optional total stands for: none counts as zero.
pub open spec fn amount_of(o: Option<u128>) -> int {
    match o {
        Some(c) => c as int,
        None => 0,
    }
}

/// Sum of `f` over the elements of `s`.
pub open spec fn sum_over<A>(s: Seq<A>, f: spec_fn(A) -> int) -> int
    decreases s.len(),
{
    if s.len() == 0 {
        0
    } else {
        sum_over(s.drop_last(), f) + f(s.last())
    }
}

/// The weight that `votes` give to pair `e`.
pub open spec fn pair_weight(votes: Seq<VotePair>, e: u64) -> int
    decreases votes.len(),
{
    if votes.len() == 0 {
        0
    } else {
        pair_weight(votes.drop_last(), e) + if votes.last().extended_pair == e {
            votes.last().vote_weight as int
        } else {
            0
        }
    }
}

/// Every pair that `votes` name is one of `es`.
pub open spec fn votes_within(votes: Seq<VotePair>, es: Seq<u64>) -> bool {
    forall|i: int| 0 <= i < votes.len() ==> es.contains(#[trigger] votes[i].extended_pair)
}

/// `v` has voted on proposal `pid`.
pub open spec fn has_voted(store: &ContractStore, pid: u64, v: Seq<char>) -> bool {
    store.voters_vote.get((v, pid)) == Some(true)
}

/// The weight of the vote that `v` holds on proposal `pid`; none without a
/// vote.
pub open spec fn voter_weight(store: &ContractStore, pid: u64, v: Seq<char>) -> int {
    if has_voted(store, pid, v) && store.voters_proposal.get((v, pid)) is Some {
        weight_sum(store.voters_proposal.get((v, pid))->Some_0.votes)
    } else {
        0
    }
}

/// The total vote of proposal `pid` equals the sum of the totals of its
/// pairs `es` and the sum of the weights of the votes of `vs`, where `es`
/// lists once each the pairs of the proposal, and `vs` lists once each
/// every address that has voted on it, whose vote names pairs of `es` only.
pub open spec fn votes_balanced(store: &ContractStore, pid: u64, es: Seq<u64>, vs: Seq<Seq<char>>) -> bool {
    &&& store.proposal.get(pid) is Some
    &&& es.no_duplicates()
    &&& vs.no_duplicates()
    &&& all_in(store.proposal.get(pid)->Some_0.extended_pair, es)
    &&& forall|v: Seq<char>| #[trigger] has_voted(store, pid, v) ==> vs.contains(v)
    &&& forall|v: Seq<char>| #[trigger] has_voted(store, pid, v) ==> store.voters_proposal.get((v, pid)) is Some
            && votes_within(store.voters_proposal.get((v, pid))->Some_0.votes, es)
    &&& store.proposal.get(pid)->Some_0.total_voted_weight == sum_over(es, |e: u64| amount_of(store.proposal_vote.get((pid, e))))
    &&& store.proposal.get(pid)->Some_0.total_voted_weight == sum_over(vs, |v: Seq<char>| voter_weight(store, pid, v))
}

proof fn lemma_sum_congruent<A>(s: Seq<A>, f: spec_fn(A) -> int, g: spec_fn(A) -> int)
    requires
        forall|i: int| 0 <= i < s.len() ==> f(#[trigger] s[i]) == g(s[i]),
    ensures
        sum_over(s, f) == sum_over(s, g),
    decreases s.len(),
{
    if s.len() > 0 {
        assert forall|i: int| 0 <= i < s.drop_last().len() implies f(#[trigger] s.drop_last()[i]) == g(s.drop_last()[i]) by {
            assert(s.drop_last()[i] == s[i]);
        }
        lemma_sum_congruent(s.drop_last(), f, g);
        assert(f(s[s.len() - 1]) == g(s[s.len() - 1]));
    }
}

proof fn lemma_sum_linear<A>(s: Seq<A>, f: spec_fn(A) -> int, g: spec_fn(A) -> int, h: spec_fn(A) -> int)
    requires
        forall|a: A| #[trigger] h(a) == f(a) + g(a),
    ensures
        sum_over(s, h) == sum_over(s, f) + sum_over(s, g),
    decreases s.len(),
{
    if s.len() > 0 {
        lemma_sum_linear(s.drop_last(), f, g, h);
        assert(h(s.last()) == f(s.last()) + g(s.last()));
    }
}

proof fn lemma_no_duplicates_drop_last<A>(s: Seq<A>)
    requires
        s.no_duplicates(),
        s.len() > 0,
    ensures
        s.drop_last().no_duplicates(),
        !s.drop_last().contains(s.last()),
{
    assert forall|i: int, j: int| 0 <= i < s.drop_last().len() && 0 <= j < s.drop_last().len() && i != j implies s.drop_last()[i]
        != s.drop_last()[j] by {
        assert(s.drop_last()[i] == s[i] && s.drop_last()[j] == s[j]);
    }
    if s.drop_last().contains(s.last()) {
        let k = choose|k: int| 0 <= k < s.drop_last().len() && s.drop_last()[k] == s.last();
        assert(s[k] == s[s.len() - 1]);
    }
}

/// Summing a value that is `c` at `x` and zero elsewhere gives `c` when `x`
/// occurs (once) in `s`, else zero.
proof fn lemma_sum_single<A>(s: Seq<A>, x: A, c: int, f: spec_fn(A) -> int)
    requires
        s.no_duplicates(),
        forall|a: A| #[trigger] f(a) == if a == x { c } else { 0 },
    ensures
        sum_over(s, f) == if s.contains(x) { c } else { 0 },
    decreases s.len(),
{
    if s.len() > 0 {
        lemma_no_duplicates_drop_last(s);
        lemma_sum_single(s.drop_last(), x, c, f);
        assert(f(s.last()) == if s.last() == x { c } else { 0 });
        if s.contains(x) {
            let k = choose|k: int| 0 <= k < s.len() && s[k] == x;
            if k < s.len() - 1 {
                assert(s.drop_last()[k] == x);
            }
        } else {
            if s.drop_last().contains(x) {
                let k = choose|k: int| 0 <= k < s.drop_last().len() && s.drop_last()[k] == x;
                assert(s[k] == x);
            }
        }
    }
}

/// Over pairs listed once each that hold every pair of `votes`, the weights
/// given to each pair add up to the weight of the votes.
proof fn lemma_pair_weights_sum(votes: Seq<VotePair>, es: Seq<u64>)
    requires
        es.no_duplicates(),
        votes_within(votes, es),
    ensures
        sum_over(es, |e: u64| pair_weight(votes, e)) == weight_sum(votes),
    decreases votes.len(),
{
    if votes.len() == 0 {
        lemma_sum_congruent(es, |e: u64| pair_weight(votes, e), |e: u64| 0int);
        lemma_sum_single(es, 0u64, 0, |e: u64| 0int);
    } else {
        let rest = votes.drop_last();
        let x = votes.last().extended_pair;
        let c = votes.last().vote_weight as int;
        assert(votes_within(rest, es)) by {
            assert forall|i: int| 0 <= i < rest.len() implies es.contains(#[trigger] rest[i].extended_pair) by {
                assert(rest[i] == votes[i]);
            }
        }
        lemma_pair_weights_sum(rest, es);
        let single = |e: u64| if e == x { c } else { 0 };
        lemma_sum_linear(es, |e: u64| pair_weight(rest, e), single, |e: u64| pair_weight(votes, e));
        lemma_sum_single(es, x, c, single);
        assert(es.contains(votes[votes.len() - 1].extended_pair));
    }
}

/// Adding or taking away the weights of `votes` changes the total of each
/// pair of proposal `pid` by the weight the votes give it, and no other
/// total.
proof fn lemma_vote_updates(w: Seq<Write<(u64, u64), u128>>, pid: u64, votes: Seq<VotePair>, add: bool, k: (u64, u64))
    requires
        vote_updates(w, pid, votes, add) is Some,
    ensures
        amount_of(latest(vote_updates(w, pid, votes, add)->Some_0, k, no_bound())) == amount_of(latest(w, k, no_bound()))
            + if k.0 != pid {
            0
        } else if add {
            pair_weight(votes, k.1)
        } else {
            -pair_weight(votes, k.1)
        },
    decreases votes.len(),
{
    if votes.len() > 0 {
        let w2 = vote_updates(w, pid, votes.drop_last(), add)->Some_0;
        lemma_vote_updates(w, pid, votes.drop_last(), add, k);
        let key = (pid, votes.last().extended_pair);
        let cur = match latest(w2, key, no_bound()) {
            Some(c) => c as int,
            None => 0,
        };
        let new = if add {
            cur + votes.last().vote_weight
        } else {
            cur - votes.last().vote_weight
        };
        lemma_latest_push(w2, (key, 0, Some(new as u128)), k, no_bound());
    }
}

proof fn lemma_vote_pairs_named(pairs: Seq<u64>, ratios: Seq<Decimal>, power: u128)
    requires
        pairs.len() == ratios.len(),
        spec_vote_pairs(pairs, ratios, power) is Some,
    ensures
        spec_vote_pairs(pairs, ratios, power)->Some_0.len() == pairs.len(),
        forall|i: int| 0 <= i < pairs.len() ==> #[trigger] spec_vote_pairs(pairs, ratios, power)->Some_0[i].extended_pair == pairs[i],
    decreases pairs.len(),
{
    if pairs.len() > 0 {
        lemma_vote_pairs_named(pairs.drop_last(), ratios.drop_last(), power);
        let v = spec_vote_pairs(pairs, ratios, power)->Some_0;
        let prev = spec_vote_pairs(pairs.drop_last(), ratios.drop_last(), power)->Some_0;
        assert forall|i: int| 0 <= i < pairs.len() implies #[trigger] v[i].extended_pair == pairs[i] by {
            if i < pairs.len() - 1 {
                assert(v[i] == prev[i]);
                assert(pairs.drop_last()[i] == pairs[i]);
            }
        }
    }
}

/// Adding to `vs` an address that is not listed, and so has not voted,
/// keeps the sum of the weights of the votes.
proof fn lemma_voters_extend(s: &ContractStore, pid: u64, vs: Seq<Seq<char>>, x: Seq<char>)
    requires
        vs.no_duplicates(),
        forall|v: Seq<char>| #[trigger] has_voted(s, pid, v) ==> vs.contains(v),
    ensures
        ({
            let vs1 = if vs.contains(x) { vs } else { vs.push(x) };
            &&& vs1.no_duplicates()
            &&& vs1.contains(x)
            &&& forall|v: Seq<char>| vs.contains(v) ==> #[trigger] vs1.contains(v)
            &&& sum_over(vs1, |v: Seq<char>| voter_weight(s, pid, v)) == sum_over(vs, |v: Seq<char>| voter_weight(s, pid, v))
        }),
{
    if !vs.contains(x) {
        let vs1 = vs.push(x);
        assert(vs1.drop_last() =~= vs);
        assert(!has_voted(s, pid, x));
        assert(vs1[vs.len() as int] == x);
        assert forall|i: int, j: int| 0 <= i < vs1.len() && 0 <= j < vs1.len() && i != j implies vs1[i] != vs1[j] by {
            if i < vs.len() && j < vs.len() {
                assert(vs1[i] == vs[i] && vs1[j] == vs[j]);
            } else if i < vs.len() {
                assert(vs1[i] == vs[i]);
                assert(vs.contains(vs[i]));
            } else {
                assert(vs1[j] == vs[j]);
                assert(vs.contains(vs[j]));
            }
        }
        assert forall|v: Seq<char>| vs.contains(v) implies #[trigger] vs1.contains(v) by {
            let k = choose|k: int| 0 <= k < vs.len() && vs[k] == v;
            assert(vs1[k] == v);
        }
    }
}

/// Where the tables read for proposal `pid` answer as before, the totals stay
/// balanced, with `x` added to the voters.
proof fn lemma_balanced_unchanged(s0: &ContractStore, s1: &ContractStore, pid: u64, es: Seq<u64>, vs: Seq<Seq<char>>, x: Seq<char>)
    requires
        votes_balanced(s0, pid, es, vs),
        s1.proposal.get(pid) == s0.proposal.get(pid),
        forall|e: u64| #[trigger] amount_of(s1.proposal_vote.get((pid, e))) == amount_of(s0.proposal_vote.get((pid, e))),
        forall|v: Seq<char>| #[trigger] s1.voters_vote.get((v, pid)) == s0.voters_vote.get((v, pid)),
        forall|v: Seq<char>| #[trigger] s1.voters_proposal.get((v, pid)) == s0.voters_proposal.get((v, pid)),
    ensures
        votes_balanced(s1, pid, es, if vs.contains(x) { vs } else { vs.push(x) }),
{
    let vs1 = if vs.contains(x) { vs } else { vs.push(x) };
    lemma_voters_extend(s0, pid, vs, x);
    assert forall|v: Seq<char>| #[trigger] has_voted(s1, pid, v) implies vs1.contains(v) by {
        assert(s1.voters_vote.get((v, pid)) == s0.voters_vote.get((v, pid)));
        assert(has_voted(s0, pid, v));
        assert(vs.contains(v));
        if !vs.contains(x) {
            let k = choose|k: int| 0 <= k < vs.len() && vs[k] == v;
            assert(vs.push(x)[k] == v);
        }
    }
    assert forall|v: Seq<char>| #[trigger] has_voted(s1, pid, v) implies s1.voters_proposal.get((v, pid)) is Some
        && votes_within(s1.voters_proposal.get((v, pid))->Some_0.votes, es) by {
        assert(s1.voters_vote.get((v, pid)) == s0.voters_vote.get((v, pid)));
        assert(has_voted(s0, pid, v));
        assert(s1.voters_proposal.get((v, pid)) == s0.voters_proposal.get((v, pid)));
    }
    lemma_sum_congruent(es, |e: u64| amount_of(s1.proposal_vote.get((pid, e))), |e: u64| amount_of(s0.proposal_vote.get((pid, e))));
    assert forall|i: int| 0 <= i < vs1.len() implies #[trigger] voter_weight(s1, pid, vs1[i]) == voter_weight(s0, pid, vs1[i]) by {
        let v = vs1[i];
        assert(s1.voters_vote.get((v, pid)) == s0.voters_vote.get((v, pid)));
        assert(s1.voters_proposal.get((v, pid)) == s0.voters_proposal.get((v, pid)));
    }
    lemma_sum_congruent(vs1, |v: Seq<char>| voter_weight(s1, pid, v), |v: Seq<char>| voter_weight(s0, pid, v));
}

/// Every address of `vs` is in `vs` with `x` added.
proof fn lemma_in_extended(vs: Seq<Seq<char>>, x: Seq<char>, v: Seq<char>)
    requires
        vs.contains(v),
    ensures
        (if vs.contains(x) { vs } else { vs.push(x) }).contains(v),
{
    if !vs.contains(x) {
        let k = choose|k: int| 0 <= k < vs.len() && vs[k] == v;
        assert(vs.push(x)[k] == v);
    }
}

/// A successful vote on proposal `pid` keeps its totals balanced.
proof fn lemma_vote_balanced_step(
    s0: &ContractStore,
    s1: &ContractStore,
    r: Result<Response, ContractError>,
    env: EnvModel,
    info: MessageInfoModel,
    pairs: Seq<u64>,
    denom: Seq<char>,
    ratios: Seq<Decimal>,
    pid: u64,
    es: Seq<u64>,
    vs: Seq<Seq<char>>,
)
    requires
        votes_balanced(s0, pid, es, vs),
        vote_outcome(s0, s1, r, env, info, pid, pairs, denom, ratios),
        spec_vote(s0, env, info, pid, pairs, denom, ratios) is Ok,
    ensures
        votes_balanced(s1, pid, es, if vs.contains(info.sender) { vs } else { vs.push(info.sender) }),
{
    let plan = spec_vote(s0, env, info, pid, pairs, denom, ratios)->Ok_0;
    let p = s0.proposal.get(pid)->Some_0;
    let x = info.sender;
    let vs1 = if vs.contains(x) { vs } else { vs.push(x) };
    let voted = s0.voters_vote.get((x, pid)) == Some(true);
    let prev = if voted { s0.voters_proposal.get((x, pid))->Some_0.votes } else { seq![] };
    let new = plan.vote.votes;
    let w0 = s0.proposal_vote.writes();
    let w1 = vote_updates(w0, pid, prev, false)->Some_0;
    assert(plan.proposal_votes == vote_updates(w1, pid, new, true)->Some_0);
    assert(new == spec_vote_pairs(pairs, ratios, plan.vote.voting_power_total)->Some_0);
    lemma_vote_pairs_named(pairs, ratios, plan.vote.voting_power_total);
    assert(votes_within(new, es)) by {
        assert forall|i: int| 0 <= i < new.len() implies es.contains(#[trigger] new[i].extended_pair) by {
            assert(new[i].extended_pair == pairs[i]);
            assert(p.extended_pair.contains(pairs[i]));
            let j = choose|j: int| 0 <= j < p.extended_pair.len() && p.extended_pair[j] == pairs[i];
            assert(es.contains(p.extended_pair[j]));
        }
    }
    assert(votes_within(prev, es)) by {
        if voted {
            assert(has_voted(s0, pid, x));
        }
    }
    crate::voting::lemma_sums_nonneg(seq![], seq![], prev);
    crate::voting::lemma_sums_nonneg(seq![], seq![], new);
    lemma_latest_push(s0.proposal.writes(), (pid, 0, Some(plan.proposal)), pid, no_bound());
    assert(s1.proposal.get(pid) == Some(plan.proposal));
    assert(plan.proposal.total_voted_weight == p.total_voted_weight - weight_sum(prev) + weight_sum(new));
    // The totals of the pairs.
    let a0 = |e: u64| amount_of(s0.proposal_vote.get((pid, e)));
    let a1 = |e: u64| amount_of(s1.proposal_vote.get((pid, e)));
    let pp = |e: u64| pair_weight(prev, e);
    let pn = |e: u64| pair_weight(new, e);
    let h = |e: u64| a0(e) + pn(e);
    assert forall|e: u64| #[trigger] h(e) == a1(e) + pp(e) by {
        lemma_vote_updates(w0, pid, prev, false, (pid, e));
        lemma_vote_updates(w1, pid, new, true, (pid, e));
    }
    lemma_sum_linear(es, a0, pn, h);
    lemma_sum_linear(es, a1, pp, h);
    lemma_pair_weights_sum(prev, es);
    lemma_pair_weights_sum(new, es);
    // The votes of the voters.
    lemma_voters_extend(s0, pid, vs, x);
    let v0 = |v: Seq<char>| voter_weight(s0, pid, v);
    let v1 = |v: Seq<char>| voter_weight(s1, pid, v);
    let sp = |v: Seq<char>| if v == x { weight_sum(prev) } else { 0 };
    let sn = |v: Seq<char>| if v == x { weight_sum(new) } else { 0 };
    let h2 = |v: Seq<char>| v0(v) + sn(v);
    assert forall|v: Seq<char>| #[trigger] h2(v) == v1(v) + sp(v) by {
        lemma_latest_push(s0.voters_vote.writes(), ((x, pid), 0, Some(true)), (v, pid), no_bound());
        lemma_latest_push(s0.voters_proposal.writes(), ((x, pid), 0, Some(plan.vote)), (v, pid), no_bound());
    }
    lemma_sum_linear(vs1, v0, sn, h2);
    lemma_sum_linear(vs1, v1, sp, h2);
    lemma_sum_single(vs1, x, weight_sum(new), sn);
    lemma_sum_single(vs1, x, weight_sum(prev), sp);
    // The voters and their votes.
    assert forall|v: Seq<char>| #[trigger] has_voted(s1, pid, v) implies vs1.contains(v) && s1.voters_proposal.get((v, pid)) is Some
        && votes_within(s1.voters_proposal.get((v, pid))->Some_0.votes, es) by {
        lemma_latest_push(s0.voters_vote.writes(), ((x, pid), 0, Some(true)), (v, pid), no_bound());
        lemma_latest_push(s0.voters_proposal.writes(), ((x, pid), 0, Some(plan.vote)), (v, pid), no_bound());
        if v != x {
            assert(has_voted(s0, pid, v));
            lemma_in_extended(vs, x, v);
        }
    }
}

/// On each proposal three totals agree: the total vote of the proposal, the
/// sum of the totals of its pairs, and the sum of the weights of the votes
/// cast on it, each voter counted once (see [`votes_balanced`]). A vote of
/// any address on any proposal, successful or refused, keeps them in
/// agreement, the voter joining the voters.
pub proof fn law_vote_totals_balanced(
    s0: &ContractStore,
    s1: &ContractStore,
    r: Result<Response, ContractError>,
    env: EnvModel,
    info: MessageInfoModel,
    q: u64,
    pairs: Seq<u64>,
    denom: Seq<char>,
    ratios: Seq<Decimal>,
    pid: u64,
    es: Seq<u64>,
    vs: Seq<Seq<char>>,
)
    requires
        votes_balanced(s0, pid, es, vs),
        vote_outcome(s0, s1, r, env, info, q, pairs, denom, ratios),
    ensures
        votes_balanced(s1, pid, es, if vs.contains(info.sender) { vs } else { vs.push(info.sender) }),
{
    if spec_vote(s0, env, info, q, pairs, denom, ratios) is Err {
        lemma_balanced_unchanged(s0, s1, pid, es, vs, info.sender);
    } else if q == pid {
        lemma_vote_balanced_step(s0, s1, r, env, info, pairs, denom, ratios, pid, es, vs);
    } else {
        let plan = spec_vote(s0, env, info, q, pairs, denom, ratios)->Ok_0;
        let x = info.sender;
        let voted = s0.voters_vote.get((x, q)) == Some(true);
        let prev = if voted { s0.voters_proposal.get((x, q))->Some_0.votes } else { seq![] };
        let w0 = s0.proposal_vote.writes();
        let w1 = vote_updates(w0, q, prev, false)->Some_0;
        assert(plan.proposal_votes == vote_updates(w1, q, plan.vote.votes, true)->Some_0);
        lemma_latest_push(s0.proposal.writes(), (q, 0, Some(plan.proposal)), pid, no_bound());
        assert forall|e: u64| #[trigger] amount_of(s1.proposal_vote.get((pid, e))) == amount_of(s0.proposal_vote.get((pid, e))) by {
            lemma_vote_updates(w0, q, prev, false, (pid, e));
            lemma_vote_updates(w1, q, plan.vote.votes, true, (pid, e));
        }
        assert forall|v: Seq<char>| #[trigger] s1.voters_vote.get((v, pid)) == s0.voters_vote.get((v, pid)) by {
            lemma_latest_push(s0.voters_vote.writes(), ((x, q), 0, Some(true)), (v, pid), no_bound());
        }
        assert forall|v: Seq<char>| #[trigger] s1.voters_proposal.get((v, pid)) == s0.voters_proposal.get((v, pid)) by {
            lemma_latest_push(s0.voters_proposal.writes(), ((x, q), 0, Some(plan.vote)), (v, pid), no_bound());
        }
        lemma_balanced_unchanged(s0, s1, pid, es, vs, x);
    }
}

/// A voter's claim of the bribes of a completed proposal `pid` that it has
/// not claimed yet pays it, in one transfer, the bribes `coins` that
/// [`crate::rewards::calculate_bribe_reward_proposal`] computes for it,
/// ordered by denomination; it marks `pid` as claimed and adds `pid` to the
/// voter's claimed proposals, kept in ascending order. Every new claim of
/// `pid` is then refused as already claimed and changes nothing.
pub proof fn law_claim_pays_reward(
    s0: &ContractStore,
    s1: &ContractStore,
    r: Result<Response, ContractError>,
    info: MessageInfoModel,
    app_id: u64,
    pid: u64,
    coins: Seq<CoinModel>,
)
    requires
        completed_of(s0, app_id).contains(pid),
        s0.voters_claim.get((info.sender, pid)) != Some(true),
        info.funds.len() == 0,
        s0.delegation_info.get(info.sender) is None,
        spec_bribe_reward_proposal(s0, info.sender, pid) == Ok::<Seq<CoinModel>, ErrorModel>(coins),
        claim_outcome(s0, s1, r, info, app_id, Some(pid)),
    ensures
        r is Ok,
        exists|sc: Seq<CoinModel>| coin_sort_of(sc, coins) && #[trigger] claim_response(info.sender, sc) == r->Ok_0@,
        s1.voters_claim.get((info.sender, pid)) == Some(true),
        s1.voters_claimed_proposals.get(info.sender) is Some,
        u64_sort_of(s1.voters_claimed_proposals.get(info.sender)->Some_0, claimed_of(s0, info.sender).push(pid)),
        forall|s2: ContractStore, r2: Result<Response, ContractError>|
            #[trigger] claim_outcome(s1, &s2, r2, info, app_id, Some(pid)) ==> r2 is Err && r2->Err_0@ == custom("Already claimed")
                && ContractStore::agrees(&s2, s1, Set::empty()),
{
    let sender = info.sender;
    let (sc, cl) = choose|sc: Seq<CoinModel>, cl: Seq<u64>|
        {
            &&& coin_sort_of(sc, coins)
            &&& u64_sort_of(cl, claimed_of(s0, sender).push(pid))
            &&& r->Ok_0@ == claim_response(sender, sc)
            &&& s1.voters_claim.writes() == s0.voters_claim.writes().push(((sender, pid), 0, Some(true)))
            &&& s1.voters_claimed_proposals.writes() == s0.voters_claimed_proposals.writes().push((sender, 0, Some(cl)))
            &&& ContractStore::agrees(s1, s0, set![Part::VotersClaim, Part::VotersClaimedProposals])
        };
    assert(claim_response(sender, sc) == r->Ok_0@);
    lemma_latest_push(s0.voters_claim.writes(), ((sender, pid), 0, Some(true)), (sender, pid), no_bound());
    lemma_latest_push(s0.voters_claimed_proposals.writes(), (sender, 0, Some(cl)), sender, no_bound());
    assert(completed_of(s1, app_id) == completed_of(s0, app_id));
    assert(s1.delegation_info.get(sender) == s0.delegation_info.get(sender));
}

/// The emission of proposal `pid` is done, together with its foundation's
/// share, and the proposal count has reached `pid`.
pub open spec fn emission_done(store: &ContractStore, pid: u64) -> bool {
    &&& store.proposal.get(pid) is Some
    &&& store.proposal.get(pid)->Some_0.emission_completed
    &&& store.proposal.get(pid)->Some_0.foundation_emission_completed
    &&& store.proposal_count.get() is Some
    &&& store.proposal_count.get()->Some_0 >= pid
}

proof fn lemma_raise_keeps_done(
    s0: &ContractStore,
    s1: &ContractStore,
    r: Result<Response, ContractError>,
    env: EnvModel,
    info: MessageInfoModel,
    app_id: u64,
    ext: Seq<u64>,
    pid: u64,
)
    requires
        emission_done(s0, pid),
        raise_outcome(s0, s1, r, env, info, app_id, ext),
    ensures
        emission_done(s1, pid),
{
    if let Ok((id, p)) = spec_raise(s0, env, info, app_id, ext) {
        lemma_latest_push(s0.proposal.writes(), (id, 0, Some(p)), pid, no_bound());
        lemma_latest_push(s0.proposal_count.writes(), ((), 0, Some(id)), (), no_bound());
    }
}

proof fn lemma_vote_keeps_done(
    s0: &ContractStore,
    s1: &ContractStore,
    r: Result<Response, ContractError>,
    env: EnvModel,
    info: MessageInfoModel,
    q: u64,
    pairs: Seq<u64>,
    denom: Seq<char>,
    ratios: Seq<Decimal>,
    pid: u64,
)
    requires
        emission_done(s0, pid),
        vote_outcome(s0, s1, r, env, info, q, pairs, denom, ratios),
    ensures
        emission_done(s1, pid),
{
    if let Ok(plan) = spec_vote(s0, env, info, q, pairs, denom, ratios) {
        lemma_latest_push(s0.proposal.writes(), (q, 0, Some(plan.proposal)), pid, no_bound());
    }
}

proof fn lemma_emission_keeps_done(
    s0: &ContractStore,
    s1: &ContractStore,
    r: Result<Response, ContractError>,
    env: EnvModel,
    info: MessageInfoModel,
    q: u64,
    facts: &EmissionFacts,
    pid: u64,
)
    requires
        emission_done(s0, pid),
        emission_outcome(s0, s1, r, env, info, q, facts),
    ensures
        emission_done(s1, pid),
{
    if let Ok(plan) = spec_emission(s0, env, info, q, facts) {
        lemma_latest_push(s0.proposal.writes(), (q, 0, Some(plan.proposal)), pid, no_bound());
    }
}

/// Once the emission of proposal `pid` and its foundation's share are done,
/// they stay done whatever message is executed next; so every later
/// emission of `pid` is refused (see [`law_completed_emission_refused`]), and
/// so is every later sending of its foundation's share (see
/// [`law_distributed_foundation_refused`]).
pub proof fn law_emission_stays_done(
    s0: &ContractStore,
    s1: &ContractStore,
    r: Result<Response, ContractError>,
    env: EnvModel,
    info: MessageInfoModel,
    msg: ExecuteMsg,
    ans: &ChainAnswers,
    pid: u64,
)
    requires
        emission_done(s0, pid),
        execute_outcome(s0, s1, r, env, info, &msg, ans),
    ensures
        emission_done(s1, pid),
{
    match msg {
        ExecuteMsg::VoteProposal { app_id, proposal_id, extended_pair, ratio } => {
            if let Ok(denom) = crate::dispatch::gov_token(&ans.gov, "Gov token not found for the app"@) {
                lemma_vote_keeps_done(s0, s1, r, env, info, proposal_id, extended_pair@, denom, ratio@, pid);
            }
        },
        ExecuteMsg::RaiseProposal { app_id } => {
            if let (Ok(_), Some(_), Ok(pools), Ok(ext)) = (ans.gov.gov_token_id, s0.cswap_id.get(), ans.pools, ans.ext_pairs) {
                if let Some(shifted) = crate::dispatch::proposal_pairs(Seq::empty(), pools@) {
                    lemma_raise_keeps_done(s0, s1, r, env, info, app_id, ext@ + shifted, pid);
                }
            }
        },
        ExecuteMsg::Emission { proposal_id } => {
            lemma_emission_keeps_done(s0, s1, r, env, info, proposal_id, &ans.emission, pid);
        },
        ExecuteMsg::FoundationRewards { proposal_id } => {
            if let Ok((p, m)) = spec_foundation(s0, info, proposal_id) {
                lemma_latest_push(s0.proposal.writes(), (proposal_id, 0, Some(p)), pid, no_bound());
            }
        },
        _ => {},
    }
}

/// Every stored proposal has an id no greater than the proposal count.
pub open spec fn proposals_counted(store: &ContractStore) -> bool {
    forall|q: u64| #[trigger] store.proposal.get(q) is Some ==> store.proposal_count.get() is Some && q <= store.proposal_count.get()->Some_0
}

proof fn lemma_counted_same(s0: &ContractStore, s1: &ContractStore)
    requires
        proposals_counted(s0),
        s1.proposal.writes() == s0.proposal.writes(),
        s1.proposal_count.writes() == s0.proposal_count.writes(),
    ensures
        proposals_counted(s1),
{
    assert forall|q: u64| #[trigger] s1.proposal.get(q) is Some implies s1.proposal_count.get() is Some
        && q <= s1.proposal_count.get()->Some_0 by {
        assert(s0.proposal.get(q) == s1.proposal.get(q));
    }
}

proof fn lemma_raise_keeps_counted(
    s0: &ContractStore,
    s1: &ContractStore,
    r: Result<Response, ContractError>,
    env: EnvModel,
    info: MessageInfoModel,
    app_id: u64,
    ext: Seq<u64>,
)
    requires
        proposals_counted(s0),
        raise_outcome(s0, s1, r, env, info, app_id, ext),
    ensures
        proposals_counted(s1),
{
    if let Ok((id, p)) = spec_raise(s0, env, info, app_id, ext) {
        lemma_latest_push(s0.proposal_count.writes(), ((), 0, Some(id)), (), no_bound());
        assert forall|q: u64| #[trigger] s1.proposal.get(q) is Some implies s1.proposal_count.get() is Some
            && q <= s1.proposal_count.get()->Some_0 by {
            lemma_latest_push(s0.proposal.writes(), (id, 0, Some(p)), q, no_bound());
            if q != id {
                assert(s0.proposal.get(q) is Some);
            }
        }
    } else {
        lemma_counted_same(s0, s1);
    }
}

proof fn lemma_vote_keeps_counted(
    s0: &ContractStore,
    s1: &ContractStore,
    r: Result<Response, ContractError>,
    env: EnvModel,
    info: MessageInfoModel,
    q: u64,
    pairs: Seq<u64>,
    denom: Seq<char>,
    ratios: Seq<Decimal>,
)
    requires
        proposals_counted(s0),
        vote_outcome(s0, s1, r, env, info, q, pairs, denom, ratios),
    ensures
        proposals_counted(s1),
{
    if let Ok(plan) = spec_vote(s0, env, info, q, pairs, denom, ratios) {
        assert(s0.proposal.get(q) is Some);
        assert(s1.proposal_count.writes() == s0.proposal_count.writes());
        assert forall|k: u64| #[trigger] s1.proposal.get(k) is Some implies s1.proposal_count.get() is Some
            && k <= s1.proposal_count.get()->Some_0 by {
            lemma_latest_push(s0.proposal.writes(), (q, 0, Some(plan.proposal)), k, no_bound());
            if k == q {
                assert(s0.proposal.get(q) is Some);
            } else {
                assert(s0.proposal.get(k) is Some);
            }
        }
    } else {
        lemma_counted_same(s0, s1);
    }
}

proof fn lemma_emission_keeps_counted(
    s0: &ContractStore,
    s1: &ContractStore,
    r: Result<Response, ContractError>,
    env: EnvModel,
    info: MessageInfoModel,
    q: u64,
    facts: &EmissionFacts,
)
    requires
        proposals_counted(s0),
        emission_outcome(s0, s1, r, env, info, q, facts),
    ensures
        proposals_counted(s1),
{
    if let Ok(plan) = spec_emission(s0, env, info, q, facts) {
        assert(s0.proposal.get(q) is Some);
        assert(s1.proposal_count.writes() == s0.proposal_count.writes());
        assert forall|k: u64| #[trigger] s1.proposal.get(k) is Some implies s1.proposal_count.get() is Some
            && k <= s1.proposal_count.get()->Some_0 by {
            lemma_latest_push(s0.proposal.writes(), (q, 0, Some(plan.proposal)), k, no_bound());
            if k == q {
                assert(s0.proposal.get(q) is Some);
            } else {
                assert(s0.proposal.get(k) is Some);
            }
        }
    } else {
        lemma_counted_same(s0, s1);
    }
}

/// Proposal ids never run ahead of the proposal count: whatever message is
/// executed, every stored proposal keeps an id no greater than the count.
pub proof fn law_proposals_counted(
    s0: &ContractStore,
    s1: &ContractStore,
    r: Result<Response, ContractError>,
    env: EnvModel,
    info: MessageInfoModel,
    msg: ExecuteMsg,
    ans: &ChainAnswers,
)
    requires
        proposals_counted(s0),
        execute_outcome(s0, s1, r, env, info, &msg, ans),
    ensures
        proposals_counted(s1),
{
    match msg {
        ExecuteMsg::VoteProposal { app_id, proposal_id, extended_pair, ratio } => {
            if let Ok(denom) = crate::dispatch::gov_token(&ans.gov, "Gov token not found for the app"@) {
                lemma_vote_keeps_counted(s0, s1, r, env, info, proposal_id, extended_pair@, denom, ratio@);
            } else {
                lemma_counted_same(s0, s1);
            }
        },
        ExecuteMsg::RaiseProposal { app_id } => {
            if let (Ok(_), Some(_), Ok(pools), Ok(ext)) = (ans.gov.gov_token_id, s0.cswap_id.get(), ans.pools, ans.ext_pairs) {
                if let Some(shifted) = crate::dispatch::proposal_pairs(Seq::empty(), pools@) {
                    lemma_raise_keeps_counted(s0, s1, r, env, info, app_id, ext@ + shifted);
                } else {
                    lemma_counted_same(s0, s1);
                }
            } else {
                lemma_counted_same(s0, s1);
            }
        },
        ExecuteMsg::Emission { proposal_id } => {
            lemma_emission_keeps_counted(s0, s1, r, env, info, proposal_id, &ans.emission);
        },
        ExecuteMsg::FoundationRewards { proposal_id } => {
            if let Ok((p, m)) = spec_foundation(s0, info, proposal_id) {
                assert(s0.proposal.get(proposal_id) is Some);
                assert(s1.proposal_count.writes() == s0.proposal_count.writes());
                assert forall|k: u64| #[trigger] s1.proposal.get(k) is Some implies s1.proposal_count.get() is Some
                    && k <= s1.proposal_count.get()->Some_0 by {
                    lemma_latest_push(s0.proposal.writes(), (proposal_id, 0, Some(p)), k, no_bound());
                    if k == proposal_id {
                        assert(s0.proposal.get(proposal_id) is Some);
                    } else {
                        assert(s0.proposal.get(k) is Some);
                    }
                }
            } else {
                lemma_counted_same(s0, s1);
            }
        },
        _ => {
            assert(s1.proposal.writes() == s0.proposal.writes());
            assert(s1.proposal_count.writes() == s0.proposal_count.writes());
            lemma_counted_same(s0, s1);
        },
    }
}

/// No two coins of `l` have the same denomination.
pub open spec fn denoms_distinct(l: Seq<CoinModel>) -> bool {
    forall|i: int, j: int| 0 <= i < j < l.len() ==> #[trigger] l[i].denom != #[trigger] l[j].denom
}

/// Adding a coin keeps the denominations of a list distinct.
pub proof fn law_add_coin_distinct(l: Seq<CoinModel>, c: CoinModel)
    requires
        denoms_distinct(l),
        spec_add_coin(l, c) is Some,
    ensures
        denoms_distinct(spec_add_coin(l, c)->Some_0),
{
    crate::coins::lemma_first_of_denom(l, c.denom);
    let r = spec_add_coin(l, c)->Some_0;
    match first_of_denom(l, c.denom) {
        Some(k) => {
            assert forall|i: int, j: int| 0 <= i < j < r.len() implies #[trigger] r[i].denom != #[trigger] r[j].denom by {
                assert(r[i].denom == l[i].denom && r[j].denom == l[j].denom);
            }
        },
        None => {
            assert forall|i: int, j: int| 0 <= i < j < r.len() implies #[trigger] r[i].denom != #[trigger] r[j].denom by {
                if j == l.len() {
                    assert(r[i] == l[i]);
                } else {
                    assert(r[i] == l[i] && r[j] == l[j]);
                }
            }
        },
    }
}

/// While a proposal is open, a bribe of one positive coin on any of its
/// pairs, in whatever order the pairs are listed, is accepted: the coin's
/// amount is added to the coin of its denomination among the pair's bribes,
/// or the coin is appended after them; the other coins are unchanged and
/// the denominations stay distinct. The one exception is an amount that
/// would overflow.
pub proof fn law_bribe_accepted(
    s0: &ContractStore,
    s1: &ContractStore,
    r: Result<Response, ContractError>,
    env: EnvModel,
    info: MessageInfoModel,
    pid: u64,
    pair: u64,
    coin: CoinModel,
)
    requires
        info.funds.len() == 1,
        info.funds[0].amount > 0,
        s0.proposal.get(pid) is Some,
        s0.proposal.get(pid)->Some_0.voting_end_time.nanos >= env.time.nanos,
        s0.proposal.get(pid)->Some_0.extended_pair.contains(pair),
        spec_add_coin(
            match s0.bribes_by_proposal.get((pid, pair)) {
                Some(l) => l,
                None => seq![],
            },
            coin,
        ) is Some,
        bribe_proposal_outcome(s0, s1, r, env, info, pid, pair, coin),
    ensures
        ({
            let before = match s0.bribes_by_proposal.get((pid, pair)) {
                Some(l) => l,
                None => seq![],
            };
            let after = s1.bribes_by_proposal.get((pid, pair))->Some_0;
            &&& r is Ok
            &&& s1.bribes_by_proposal.get((pid, pair)) is Some
            &&& match first_of_denom(before, coin.denom) {
                Some(i) => after == before.update(i, CoinModel { denom: coin.denom, amount: (before[i].amount + coin.amount) as u128 }),
                None => after == before.push(coin),
            }
            &&& denoms_distinct(before) ==> denoms_distinct(after)
        }),
{
    let before = match s0.bribes_by_proposal.get((pid, pair)) {
        Some(l) => l,
        None => seq![],
    };
    let l = spec_add_coin(before, coin)->Some_0;
    lemma_latest_push(s0.bribes_by_proposal.writes(), ((pid, pair), 0, Some(l)), (pid, pair), no_bound());
    if denoms_distinct(before) {
        law_add_coin_distinct(before, coin);
    }
}

/// A delegator's share of a coin of `amount` earned through its delegated
/// address is its delegated part of the earnings, `amount * delegated /
/// total`, rounded down (through an 18-digit ratio): never more, and less by
/// under one unit plus `amount / 10^18`. The fee taken from it is at most the
/// fee rate of the share, and the delegator keeps the rest.
pub proof fn law_delegator_share(amount: u128, delegated: u128, total: u128, fee: Decimal)
    requires
        spec_delegator_share(amount, delegated, total, fee) is Ok,
    ensures
        ({
            let (kept, taken) = spec_delegator_share(amount, delegated, total, fee)->Ok_0;
            let share = kept + taken;
            let f = DECIMAL_FRACTIONAL as int;
            &&& total > 0
            &&& share * total <= amount * delegated
            &&& amount * delegated * f < (share + 1) * total * f + amount * total
            &&& taken * f <= share * fee.atomics
        }),
{
    let f = DECIMAL_FRACTIONAL as int;
    let ratio = spec_multiply_ratio(delegated, DECIMAL_FRACTIONAL, total)->Some_0 as int;
    let share = spec_multiply_ratio(amount, ratio as u128, DECIMAL_FRACTIONAL)->Some_0 as int;
    let t = total as int;
    let d = delegated as int;
    let a = amount as int;
    assert(ratio == (d * f) / t);
    assert(share == (a * ratio) / f);
    assert(ratio * t <= d * f && d * f < (ratio + 1) * t) by (nonlinear_arith)
        requires
            ratio == (d * f) / t,
            t > 0,
            d >= 0,
            f > 0,
    ;
    assert(share * f <= a * ratio && a * ratio < (share + 1) * f) by (nonlinear_arith)
        requires
            share == (a * ratio) / f,
            f > 0,
            a >= 0,
            ratio >= 0,
    ;
    assert(share * t <= a * d) by (nonlinear_arith)
        requires
            share * f <= a * ratio,
            ratio * t <= d * f,
            f > 0,
            t > 0,
            a >= 0,
            share >= 0,
    ;
    assert(a * d * f < (share + 1) * t * f + a * t) by (nonlinear_arith)
        requires
            d * f < (ratio + 1) * t,
            a * ratio < (share + 1) * f,
            f > 0,
            t > 0,
            a >= 0,
            share >= 0,
            ratio >= 0,
    ;
    let fa = fee.atomics as int;
    let taken = spec_multiply_ratio(share as u128, fee.atomics, DECIMAL_FRACTIONAL)->Some_0 as int;
    assert(taken * f <= share * fa) by (nonlinear_arith)
        requires
            taken == (share * fa) / f,
            f > 0,
            share >= 0,
            fa >= 0,
    ;
}

/// Sum of a sequence of amounts.
pub open spec fn amount_sum(s: Seq<u128>) -> int
    decreases s.len(),
{
    if s.len() == 0 {
        0
    } else {
        amount_sum(s.drop_last()) + s.last()
    }
}

/// The shares of the delegators of an address, whose delegations add up to
/// at most its total delegated, add up to at most the earnings they share.
pub proof fn law_delegator_shares_within(amount: u128, delegations: Seq<u128>, total: u128, fee: Decimal, shares: Seq<u128>)
    requires
        amount_sum(delegations) <= total,
        shares.len() == delegations.len(),
        forall|i: int| 0 <= i < delegations.len() ==> spec_delegator_share(amount, #[trigger] delegations[i], total, fee) is Ok
            && shares[i] == spec_delegator_share(amount, delegations[i], total, fee)->Ok_0.0 + spec_delegator_share(amount, delegations[i], total, fee)->Ok_0.1,
    ensures
        amount_sum(shares) <= amount,
{
    if delegations.len() > 0 {
        lemma_shares_scaled(amount, delegations, total, fee, shares);
        let t = total as int;
        let a = amount as int;
        let ss = amount_sum(shares);
        let ds = amount_sum(delegations);
        assert(ss <= a) by (nonlinear_arith)
            requires
                ss * t <= a * ds,
                ds <= t,
                t > 0,
                a >= 0,
        ;
    }
}

proof fn lemma_shares_scaled(amount: u128, delegations: Seq<u128>, total: u128, fee: Decimal, shares: Seq<u128>)
    requires
        shares.len() == delegations.len(),
        forall|i: int| 0 <= i < delegations.len() ==> spec_delegator_share(amount, #[trigger] delegations[i], total, fee) is Ok
            && shares[i] == spec_delegator_share(amount, delegations[i], total, fee)->Ok_0.0 + spec_delegator_share(amount, delegations[i], total, fee)->Ok_0.1,
    ensures
        amount_sum(shares) * total <= amount * amount_sum(delegations),
        delegations.len() > 0 ==> total > 0,
        amount_sum(delegations) >= 0,
    decreases delegations.len(),
{
    if delegations.len() > 0 {
        let n = delegations.len() - 1;
        assert forall|i: int| 0 <= i < delegations.drop_last().len() implies spec_delegator_share(amount, #[trigger] delegations.drop_last()[i], total, fee) is Ok
            && shares.drop_last()[i] == spec_delegator_share(amount, delegations.drop_last()[i], total, fee)->Ok_0.0 + spec_delegator_share(amount, delegations.drop_last()[i], total, fee)->Ok_0.1 by {
            assert(delegations.drop_last()[i] == delegations[i]);
            assert(shares.drop_last()[i] == shares[i]);
        }
        lemma_shares_scaled(amount, delegations.drop_last(), total, fee, shares.drop_last());
        assert(spec_delegator_share(amount, delegations[n], total, fee) is Ok);
        law_delegator_share(amount, delegations[n], total, fee);
        let t = total as int;
        let a = amount as int;
        let s0 = amount_sum(shares.drop_last());
        let d0 = amount_sum(delegations.drop_last());
        let sl = shares[n] as int;
        let dl = delegations[n] as int;
        assert((s0 + sl) * t <= a * (d0 + dl)) by (nonlinear_arith)
            requires
                s0 * t <= a * d0,
                sl * t <= a * dl,
        ;
    }
}

/// A delegation hands over the given ratio of the sender's voting power at
/// the current height, rounded down: the amount recorded for the delegated
/// address is `power * ratio`, and the address's total delegated changes by
/// the new amount less what the sender had delegated to it before.
pub proof fn law_delegate_ratio(
    s0: &ContractStore,
    s1: &ContractStore,
    r: Result<Response, ContractError>,
    env: EnvModel,
    info: MessageInfoModel,
    daddr: Seq<char>,
    denom: Seq<char>,
    ratio: Decimal,
)
    requires
        delegate_outcome(s0, s1, r, env, info, daddr, denom, ratio),
        r is Ok,
    ensures
        ({
            let power = vtoken_power(s0.vtokens.get_at((info.sender, denom), env.height)->Some_0);
            let before = match s0.delegated.get(info.sender) {
                Some(u) => match delegation_index(u.delegations, daddr) {
                    Some(i) => u.delegations[i].delegated as int,
                    None => 0,
                },
                None => 0,
            };
            let after = s1.delegated.get(info.sender)->Some_0.delegations;
            &&& s0.vtokens.get_at((info.sender, denom), env.height) is Some
            &&& s1.delegated.get(info.sender) is Some
            &&& exists|j: int| 0 <= j < after.len() && #[trigger] after[j].delegated_to == daddr && {
                let d = after[j].delegated as int;
                &&& d * (DECIMAL_FRACTIONAL as int) <= power * ratio.atomics
                &&& power * ratio.atomics < (d + 1) * (DECIMAL_FRACTIONAL as int)
                &&& s1.delegation_stats.get(daddr) is Some
                &&& s1.delegation_stats.get(daddr)->Some_0.total_delegated == s0.delegation_stats.get(daddr)->Some_0.total_delegated - before + d
            }
        }),
{
    let plan = spec_delegate(s0, env, info, daddr, denom, ratio)->Ok_0;
    let l = s0.vtokens.get_at((info.sender, denom), env.height)->Some_0;
    let power = vtoken_power(l);
    let amount = spec_multiply_ratio(power as u128, ratio.atomics, DECIMAL_FRACTIONAL)->Some_0 as int;
    let f = DECIMAL_FRACTIONAL as int;
    let ra = ratio.atomics as int;
    crate::voting::lemma_sums_nonneg(seq![], l, seq![]);
    assert(amount * f <= power * ra && power * ra < (amount + 1) * f) by (nonlinear_arith)
        requires
            amount == (power * ra) / f,
            f > 0,
            power >= 0,
            ra >= 0,
    ;
    lemma_latest_push(s0.delegated.writes(), (info.sender, env.height, Some(plan.user)), info.sender, no_bound());
    lemma_latest_push(s0.delegation_stats.writes(), (daddr, env.height, Some(plan.stats)), daddr, no_bound());
    let user = match s0.delegated.get(info.sender) {
        Some(u) => u,
        None => UserDelegationInfoModel { total_casted: 0, delegations: seq![] },
    };
    let after = plan.user.delegations;
    match delegation_index(user.delegations, daddr) {
        Some(i) => {
            crate::delegated::lemma_delegation_index(user.delegations, daddr);
            assert(after[i].delegated_to == daddr);
            assert(after[i].delegated == amount);
            assert(s1.delegated.get(info.sender)->Some_0.delegations == after);
            assert(s1.delegation_stats.get(daddr) == Some(plan.stats));
        },
        None => {
            let j = after.len() - 1;
            assert(after == user.delegations.push(after[j]));
            assert(after[j].delegated_to == daddr);
            assert(after[j].delegated == amount);
            assert(s1.delegated.get(info.sender)->Some_0.delegations == after);
            assert(s1.delegation_stats.get(daddr) == Some(plan.stats));
        },
    }
}

/// The locks of `l` whose period has ended before `now`.
pub open spec fn ended_locks(l: Seq<VtokenModel>, now: u64) -> Seq<VtokenModel> {
    l.filter(|v: VtokenModel| v.end_time.nanos < now)
}

/// The locks of `l` whose period has not ended before `now`.
pub open spec fn running_locks(l: Seq<VtokenModel>, now: u64) -> Seq<VtokenModel> {
    l.filter(|v: VtokenModel| v.end_time.nanos >= now)
}

proof fn lemma_parts_filter(l: Seq<VtokenModel>, now: u64)
    ensures
        unlocked_part(l, now) == ended_locks(l, now),
        locked_part(l, now) == running_locks(l, now),
    decreases l.len(),
{
    reveal(Seq::filter);
    if l.len() > 0 {
        lemma_parts_filter(l.drop_last(), now);
    }
}

/// A withdrawal pays the sender, in one transfer, the sum of the token
/// amounts of all its locks of the denomination whose period ended before
/// the block time, keeps exactly its other locks, in their order (removing
/// the entry when none is left), and takes the withdrawn tokens and their
/// vtokens off the total supply.
pub proof fn law_withdraw_pays_ended_locks(
    s0: &ContractStore,
    s1: &ContractStore,
    r: Result<Response, ContractError>,
    env: EnvModel,
    info: MessageInfoModel,
    denom: Seq<char>,
)
    requires
        withdraw_outcome(s0, s1, r, env, info, denom),
        r is Ok,
    ensures
        ({
            let l = s0.vtokens.get((info.sender, denom))->Some_0;
            let ended = ended_locks(l, env.time.nanos);
            let kept = running_locks(l, env.time.nanos);
            let paid = r->Ok_0@.messages[0]->BankSend_amount[0].amount;
            &&& s0.vtokens.get((info.sender, denom)) is Some
            &&& ended.len() > 0
            &&& r->Ok_0@.messages.len() == 1
            &&& r->Ok_0@.messages[0] is BankSend
            &&& r->Ok_0@.messages[0]->BankSend_to_address == info.sender
            &&& r->Ok_0@.messages[0]->BankSend_amount.len() == 1
            &&& r->Ok_0@.messages[0]->BankSend_amount[0].denom == denom
            &&& paid == token_sum(ended)
            &&& s1.vtokens.get((info.sender, denom)) == if kept.len() == 0 { None } else { Some(kept) }
            &&& s0.supply.get(denom) is Some
            &&& s1.supply.get(denom) is Some
            &&& s1.supply.get(denom)->Some_0.token == s0.supply.get(denom)->Some_0.token - paid
            &&& s1.supply.get(denom)->Some_0.vtoken == s0.supply.get(denom)->Some_0.vtoken - vtoken_power(ended)
        }),
{
    let l = s0.vtokens.get((info.sender, denom))->Some_0;
    let now = env.time.nanos;
    lemma_parts_filter(l, now);
    crate::withdraw::lemma_parts(l, now);
    let plan = spec_withdraw(s0, env, info, denom)->Ok_0;
    let key = (info.sender, denom);
    lemma_latest_push(s0.vtokens.writes(), (key, env.height, if plan.remaining.len() == 0 { None } else { Some(plan.remaining) }), key, no_bound());
    lemma_latest_push(s0.supply.writes(), (denom, env.height, Some(plan.supply)), denom, no_bound());
}

/// `v` is a lock, made at `env`, of `amount` of `denom` for the locking
/// period `lp`, whose duration and weight are `pw`.
pub open spec fn fresh_lock(v: VtokenModel, env: EnvModel, denom: Seq<char>, amount: u128, lp: LockingPeriod, pw: crate::state::PeriodWeight) -> bool {
    &&& v.period == lp
    &&& v.token == CoinModel { denom, amount }
    &&& v.start_time == env.time
    &&& v.end_time.nanos == env.time.nanos + pw.period * 1_000_000_000
    &&& v.vtoken.amount == (amount * pw.weight.atomics) / (DECIMAL_FRACTIONAL as int)
}

/// A rebase relocks each period's share in that same period: after a
/// successful rebase, the holder's locks of the governance token are its
/// locks before, followed by a lock for the first period of the rebase of
/// its first-period holdings at the proposal's height (when not zero), then
/// a lock for the second period of the rebase of its second-period holdings
/// (when not zero), each lasting its period from now with its weight.
pub proof fn law_rebase_relocks_same_period(
    s0: &ContractStore,
    s1: &ContractStore,
    r: Result<Response, ContractError>,
    env: EnvModel,
    info: MessageInfoModel,
    pid: u64,
    gov: &GovTokenFacts,
)
    requires
        rebase_outcome(s0, s1, r, env, info, pid, gov),
        r is Ok,
    ensures
        ({
            let p = s0.proposal.get(pid)->Some_0;
            let denom = gov_denom(gov)->Ok_0;
            let held = match s0.vtokens.get_at((info.sender, denom), p.height) {
                Some(l) => l,
                None => seq![],
            };
            let supply = s0.supply.get_at(denom, p.height)->Some_0;
            let a1 = spec_rebase_amount(period_amount(held, LockingPeriod::T1) as u128, p.rebase_distributed, supply.token)->Ok_0;
            let a2 = spec_rebase_amount(period_amount(held, LockingPeriod::T2) as u128, p.rebase_distributed, supply.token)->Ok_0;
            let before = match s0.vtokens.get((info.sender, denom)) {
                Some(l) => l,
                None => seq![],
            };
            let st = s0.state.get()->Some_0;
            let after = s1.vtokens.get((info.sender, denom))->Some_0;
            let n1: int = if a1 > 0 { 1 } else { 0 };
            let n2: int = if a2 > 0 { 1 } else { 0 };
            &&& a1 > 0 || a2 > 0
            &&& s1.vtokens.get((info.sender, denom)) is Some
            &&& after.len() == before.len() + n1 + n2
            &&& after.subrange(0, before.len() as int) == before
            &&& a1 > 0 ==> fresh_lock(after[before.len() as int], env, denom, a1, LockingPeriod::T1, st.t1)
            &&& a2 > 0 ==> fresh_lock(after.last(), env, denom, a2, LockingPeriod::T2, st.t2)
        }),
{
    let plan = spec_rebase(s0, env, info, pid, gov)->Ok_0;
    let mid = choose|mid: ContractStore| #[trigger] rebase_locks(s0, &mid, s1, env, info.sender, plan);
    let denom = plan.denom;
    let key = (info.sender, denom);
    let before = match s0.vtokens.get(key) {
        Some(l) => l,
        None => seq![],
    };
    let st = s0.state.get()->Some_0;
    let mid_list = match mid.vtokens.get(key) {
        Some(l) => l,
        None => seq![],
    };
    match plan.first {
        Some(p1) => {
            lemma_latest_push(s0.vtokens.writes(), (key, env.height, Some(crate::contract::appended_vtokens(s0, key, p1.vtoken))), key, no_bound());
            assert(mid_list == before.push(p1.vtoken));
        },
        None => {
            assert(mid.vtokens.get(key) == s0.vtokens.get(key));
            assert(mid_list == before);
        },
    }
    match plan.second {
        Some(p2) => {
            lemma_latest_push(mid.vtokens.writes(), (key, env.height, Some(crate::contract::appended_vtokens(&mid, key, p2.vtoken))), key, no_bound());
            assert(s1.vtokens.get(key) == Some(mid_list.push(p2.vtoken)));
            match plan.first {
                Some(p1) => {
                    assert(crate::contract::state_after(st, p1).t2 == st.t2);
                },
                None => {},
            }
            assert(mid_list.push(p2.vtoken).subrange(0, before.len() as int) =~= mid_list.subrange(0, before.len() as int));
        },
        None => {
            assert(s1.vtokens.get(key) == mid.vtokens.get(key));
        },
    }
    let after = s1.vtokens.get(key)->Some_0;
    assert(after.subrange(0, before.len() as int) =~= before);
}

proof fn lemma_seq_sum_nonneg(s: Seq<u128>)
    ensures
        seq_sum(s) >= 0,
    decreases s.len(),
{
    if s.len() > 0 {
        lemma_seq_sum_nonneg(s.drop_last());
    }
}

/// Splitting `share` by `votes` over `total` gives each vote its part,
/// `vote * share / total` rounded down; together the parts fall short of
/// `share * sum(votes) / total` by less than one unit each.
proof fn lemma_shares_props(votes: Seq<u128>, share: u128, total: u128)
    requires
        spec_shares(votes, share, total) is Some,
        total > 0,
    ensures
        ({
            let r = spec_shares(votes, share, total)->Some_0;
            &&& r.len() == votes.len()
            &&& forall|i: int| 0 <= i < r.len() ==> #[trigger] r[i] == (votes[i] * share) / (total as int)
            &&& seq_sum(r) * total <= share * seq_sum(votes)
            &&& r.len() > 0 ==> share * seq_sum(votes) < (seq_sum(r) + r.len()) * total
            &&& r.len() == 0 ==> seq_sum(r) == 0 && seq_sum(votes) == 0
            &&& seq_sum(r) >= 0
            &&& seq_sum(votes) >= 0
        }),
    decreases votes.len(),
{
    if votes.len() > 0 {
        lemma_shares_props(votes.drop_last(), share, total);
        let prev = spec_shares(votes.drop_last(), share, total)->Some_0;
        let r = spec_shares(votes, share, total)->Some_0;
        let x = votes.last() * share;
        let t = total as int;
        let q = x / t;
        assert(r == prev.push(q as u128));
        assert(r.drop_last() =~= prev);
        assert forall|i: int| 0 <= i < r.len() implies #[trigger] r[i] == (votes[i] * share) / (total as int) by {
            if i < prev.len() {
                assert(r[i] == prev[i]);
                assert(votes.drop_last()[i] == votes[i]);
            }
        }
        assert(q * t <= x && x < (q + 1) * t) by (nonlinear_arith)
            requires
                q == x / t,
                t > 0,
                x >= 0,
        ;
        let sr = seq_sum(prev);
        let sv = seq_sum(votes.drop_last());
        let n = prev.len() as int;
        let sh = share as int;
        let v = votes.last() as int;
        assert(x == v * sh);
        if n == 0 {
            assert((sr + q) * t <= sh * (sv + v) && sh * (sv + v) < (sr + q + n + 1) * t) by (nonlinear_arith)
                requires
                    sr == 0,
                    sv == 0,
                    n == 0,
                    q * t <= x,
                    x < (q + 1) * t,
                    x == v * sh,
            ;
        } else {
            assert((sr + q) * t <= sh * (sv + v) && sh * (sv + v) < (sr + q + n + 1) * t) by (nonlinear_arith)
                requires
                    sr * t <= sh * sv,
                    sh * sv < (sr + n) * t,
                    q * t <= x,
                    x < (q + 1) * t,
                    x == v * sh,
            ;
        }
        assert(seq_sum(r) == sr + q);
        assert(seq_sum(votes) == sv + v);
    }
}

/// The emission's rewards of vaults and pools are proportional to their
/// votes: the distributed emission is split between the pools and the
/// vaults by their total votes, and each pool's (vault's) reward is its
/// vote times the pools' (vaults') share divided by the total vote of the
/// pools (vaults), rounded down; so the rewards of the pools (vaults) add up
/// to their share, short by less than one unit each.
pub proof fn law_emission_rewards_proportional(
    s0: &ContractStore,
    s1: &ContractStore,
    r: Result<Response, ContractError>,
    env: EnvModel,
    info: MessageInfoModel,
    pid: u64,
    facts: &EmissionFacts,
)
    requires
        emission_outcome(s0, s1, r, env, info, pid, facts),
        r is Ok,
    ensures
        ({
            let p = s0.proposal.get(pid)->Some_0;
            let split = split_votes(s0, pid, p.extended_pair);
            let rw = s1.emission_reward.get(pid)->Some_0;
            let d = rw.total_emission_rewards as int;
            let pv = seq_sum(split.pool_votes);
            let vv = seq_sum(split.vault_votes);
            let ps = (pv * d) / (pv + vv);
            let vs = d - ps;
            &&& s1.emission_reward.get(pid) is Some
            &&& rw.pool_ids == split.pool_ids
            &&& rw.vault_ids == split.vault_ids
            &&& pv + vv > 0
            &&& pv > 0 ==> rw.pool_rewards.len() == split.pool_votes.len()
                && (forall|i: int| 0 <= i < rw.pool_rewards.len() ==> #[trigger] rw.pool_rewards[i] == (split.pool_votes[i] * ps) / pv)
                && seq_sum(rw.pool_rewards) <= ps < seq_sum(rw.pool_rewards) + rw.pool_rewards.len()
            &&& pv == 0 ==> rw.pool_rewards.len() == 0
            &&& vv > 0 ==> rw.vault_rewards.len() == split.vault_votes.len()
                && (forall|i: int| 0 <= i < rw.vault_rewards.len() ==> #[trigger] rw.vault_rewards[i] == (split.vault_votes[i] * vs) / vv)
                && seq_sum(rw.vault_rewards) <= vs < seq_sum(rw.vault_rewards) + rw.vault_rewards.len()
            &&& vv == 0 ==> rw.vault_rewards.len() == 0
        }),
{
    let plan = spec_emission(s0, env, info, pid, facts)->Ok_0;
    let p = s0.proposal.get(pid)->Some_0;
    let denom = facts.gov_token_denom->Ok_0;
    let supply = s0.supply.get_at(denom@, p.height)->Some_0;
    let total_weight = facts.token_supply->Ok_0;
    let st = s0.state.get()->Some_0;
    let vested = facts.vested_tokens->Ok_0;
    let locked = spec_locked_ratio(total_weight, vested, supply)->Ok_0;
    let em = s0.emission.get(p.app_id)->Some_0;
    let (reward, effective) = spec_reward(em, locked)->Ok_0;
    assert(spec_emission_split(s0, env, pid, p, facts, st, em, locked, reward, effective) == Ok::<crate::emission::EmissionPlan, ErrorModel>(plan));
    let split = split_votes(s0, pid, p.extended_pair);
    crate::emission::lemma_split_total(s0, pid, p.extended_pair);
    let pv = seq_sum(split.pool_votes);
    let vv = seq_sum(split.vault_votes);
    let sh = spec_shares_of(em, reward, effective, locked, st.foundation_percentage)->Ok_0;
    let (pools_share, vault_share) = spec_split_emission(pv as u128, sh.distributed, split.total as u128)->Ok_0;
    lemma_latest_push(s0.emission_reward.writes(), (pid, 0, Some(plan.rewards)), pid, no_bound());
    let rw = plan.rewards;
    assert(split.total <= u128::MAX);
    lemma_seq_sum_nonneg(split.pool_votes);
    lemma_seq_sum_nonneg(split.vault_votes);
    assert(rw.total_emission_rewards == sh.distributed);
    assert(pools_share == (pv * sh.distributed) / (pv + vv));
    assert(vault_share == sh.distributed - pools_share);
    if pv > 0 {
        lemma_shares_props(split.pool_votes, pools_share, pv as u128);
        let sr = seq_sum(rw.pool_rewards);
        let n = rw.pool_rewards.len() as int;
        let ps = pools_share as int;
        assert(sr <= ps && ps < sr + n) by (nonlinear_arith)
            requires
                sr * pv <= ps * pv,
                ps * pv < (sr + n) * pv,
                pv > 0,
        ;
    }
    if vv > 0 {
        lemma_shares_props(split.vault_votes, vault_share, vv as u128);
        let sr = seq_sum(rw.vault_rewards);
        let n = rw.vault_rewards.len() as int;
        let vsh = vault_share as int;
        assert(sr <= vsh && vsh < sr + n) by (nonlinear_arith)
            requires
                sr * vv <= vsh * vv,
                vsh * vv < (sr + n) * vv,
                vv > 0,
        ;
    }
}

} // verus!
