//! Bribes earned by voters, and claiming them.
use crate::coins::{add_coin, spec_add_coin};
use crate::decimal::{spec_multiply_ratio, Decimal, DECIMAL_FRACTIONAL};
use crate::env::{Env, EnvModel, MessageInfo, MessageInfoModel};
use crate::error::{custom, missing, Abort, ContractError, ErrorModel};
use crate::model::{copy_u64s, Duplicate};
use crate::response::{CosmosMsg, MsgModel, Response, ResponseModel};
use crate::state::{Coin, CoinModel, DelegationInfo, DelegationInfoModel, VotePair};
use crate::store::{ContractStore, Part};
use crate::text::{denoms_sorted, sort_coins_by_denom, sort_u64s, u64_sorted};
use crate::table::Write;
use vstd::prelude::*;

verus! {

/// A voter's share of a bribe of `amount`: `amount * (weight / total)`, the
/// ratio taken as a decimal.
pub open spec fn spec_bribe_share(weight: u128, total: u128, amount: u128) -> Result<u128, Abort> {
    match spec_multiply_ratio(weight, DECIMAL_FRACTIONAL, total) {
        None => if total == 0 {
            Err(Abort::DivideByZero)
        } else {
            Err(Abort::Overflow)
        },
        Some(ratio) => match spec_multiply_ratio(amount, ratio, DECIMAL_FRACTIONAL) {
            None => Err(Abort::Overflow),
            Some(a) => Ok(a),
        },
    }
}

/// Computes a voter's share of a bribe (see [`spec_bribe_share`]).
pub fn bribe_share(weight: u128, total: u128, amount: u128) -> (r: Result<u128, Abort>)
    ensures
        r == spec_bribe_share(weight, total, amount),
{
    let ratio = match Decimal::new(weight).checked_div(Decimal::new(total)) {
        Some(r) => r,
        None => return if total == 0 {
            Err(Abort::DivideByZero)
        } else {
            Err(Abort::Overflow)
        },
    };
    match ratio.checked_mul_amount(amount) {
        Some(a) => Ok(a),
        None => Err(Abort::Overflow),
    }
}

/// A voter's share of a bribe of `amount`, less the fee `fee` when one is
/// charged: `amount * ((weight / total) * (1 - fee))`, each step taken as a
/// decimal and truncated.
pub open spec fn spec_pair_share(weight: u128, total: u128, fee: Option<Decimal>, amount: u128) -> Result<u128, Abort> {
    match fee {
        None => spec_bribe_share(weight, total, amount),
        Some(f) => match spec_multiply_ratio(weight, DECIMAL_FRACTIONAL, total) {
            None => if total == 0 {
                Err(Abort::DivideByZero)
            } else {
                Err(Abort::Overflow)
            },
            Some(ratio) => if f.atomics > DECIMAL_FRACTIONAL {
                Err(Abort::Overflow)
            } else {
                match spec_multiply_ratio(ratio, (DECIMAL_FRACTIONAL - f.atomics) as u128, DECIMAL_FRACTIONAL) {
                    None => Err(Abort::Overflow),
                    Some(kept) => match spec_multiply_ratio(amount, kept, DECIMAL_FRACTIONAL) {
                        None => Err(Abort::Overflow),
                        Some(a) => Ok(a),
                    },
                }
            },
        },
    }
}

/// Computes a share of a bribe less a fee (see [`spec_pair_share`]).
pub fn pair_share(weight: u128, total: u128, fee: Option<Decimal>, amount: u128) -> (r: Result<u128, Abort>)
    ensures
        r == spec_pair_share(weight, total, fee, amount),
{
    match fee {
        None => bribe_share(weight, total, amount),
        Some(f) => {
            let ratio = match Decimal::new(weight).checked_div(Decimal::new(total)) {
                Some(r) => r,
                None => return if total == 0 {
                    Err(Abort::DivideByZero)
                } else {
                    Err(Abort::Overflow)
                },
            };
            let keep = match Decimal::one().checked_sub(f) {
                Some(k) => k,
                None => return Err(Abort::Overflow),
            };
            let kept = match ratio.checked_mul(keep) {
                Some(k) => k,
                None => return Err(Abort::Overflow),
            };
            match kept.checked_mul_amount(amount) {
                Some(a) => Ok(a),
                None => Err(Abort::Overflow),
            }
        },
    }
}

/// The fee charged on the bribes of `pair` for votes of the delegated
/// address with parameters `fees`: its protocol fees, unless the pair is
/// excluded from fees. No fee without a delegated address.
pub open spec fn fee_for(fees: Option<DelegationInfoModel>, pair: u64) -> Option<Decimal> {
    match fees {
        None => None,
        Some(di) => if di.excluded_fee_pair.contains(pair) {
            None
        } else {
            Some(di.protocol_fees)
        },
    }
}

/// The model of optional delegated-address parameters.
pub open spec fn fees_model(fees: Option<&DelegationInfo>) -> Option<DelegationInfoModel> {
    match fees {
        Some(d) => Some(d@),
        None => None,
    }
}

fn fee_for_pair(fees: Option<&DelegationInfo>, pair: u64) -> (r: Option<Decimal>)
    ensures
        r == fee_for(fees_model(fees), pair),
{
    match fees {
        None => None,
        Some(di) => {
            proof {
                crate::model::lemma_deep_view_u64(&di.excluded_fee_pair);
            }
            if contains_u64(&di.excluded_fee_pair, pair) {
                None
            } else {
                Some(di.protocol_fees)
            }
        },
    }
}

/// The shares of a voter with vote `weight` in the `bribes` of a pair whose
/// total vote is `total`, less the fee `fee` when one is charged.
pub open spec fn spec_claimable(weight: u128, total: u128, fee: Option<Decimal>, bribes: Seq<CoinModel>) -> Result<Seq<CoinModel>, Abort>
    decreases bribes.len(),
{
    if bribes.len() == 0 {
        Ok(seq![])
    } else {
        match spec_claimable(weight, total, fee, bribes.drop_last()) {
            Err(a) => Err(a),
            Ok(l) => match spec_pair_share(weight, total, fee, bribes.last().amount) {
                Err(a) => Err(a),
                Ok(x) => Ok(l.push(CoinModel { denom: bribes.last().denom, amount: x })),
            },
        }
    }
}

/// `acc` with each coin of `coins` added in turn.
pub open spec fn spec_merge(acc: Seq<CoinModel>, coins: Seq<CoinModel>) -> Option<Seq<CoinModel>>
    decreases coins.len(),
{
    if coins.len() == 0 {
        Some(acc)
    } else {
        match spec_merge(acc, coins.drop_last()) {
            None => None,
            Some(a) => spec_add_coin(a, coins.last()),
        }
    }
}

/// The bribes earned by the parts `votes` of a vote on proposal `pid`,
/// added to `acc`; for the votes of a delegated address with parameters
/// `fees`, less the fees charged on each pair.
pub open spec fn accumulate_votes(store: &ContractStore, pid: u64, acc: Seq<CoinModel>, votes: Seq<VotePair>, fees: Option<DelegationInfoModel>) -> Result<Seq<CoinModel>, ErrorModel>
    decreases votes.len(),
{
    if votes.len() == 0 {
        Ok(acc)
    } else {
        match accumulate_votes(store, pid, acc, votes.drop_last(), fees) {
            Err(e) => Err(e),
            Ok(a) => {
                let pair = votes.last();
                match store.proposal_vote.get((pid, pair.extended_pair)) {
                    None => Err(missing("cosmwasm_std::math::uint128::Uint128")),
                    Some(total) => {
                        let bribes = match store.bribes_by_proposal.get((pid, pair.extended_pair)) {
                            Some(b) => b,
                            None => seq![],
                        };
                        match spec_claimable(pair.vote_weight, total, fee_for(fees, pair.extended_pair), bribes) {
                            Err(ab) => Err(ErrorModel::Aborted(ab)),
                            Ok(c) => match spec_merge(a, c) {
                                None => Err(ErrorModel::Aborted(Abort::Overflow)),
                                Some(m) => Ok(m),
                            },
                        }
                    },
                }
            },
        }
    }
}

fn claimable(weight: u128, total: u128, fee: Option<Decimal>, bribes: &Vec<Coin>) -> (r: Result<Vec<Coin>, Abort>)
    ensures
        match spec_claimable(weight, total, fee, bribes.deep_view()) {
            Ok(l) => r is Ok && r->Ok_0.deep_view() == l,
            Err(a) => r == Err::<Vec<Coin>, Abort>(a),
        },
{
    let mut out: Vec<Coin> = Vec::new();
    assert(out.deep_view() =~= Seq::<CoinModel>::empty());
    let mut i: usize = 0;
    while i < bribes.len()
        invariant
            i <= bribes.len(),
            spec_claimable(weight, total, fee, bribes.deep_view().subrange(0, i as int)) == Ok::<Seq<CoinModel>, Abort>(out.deep_view()),
        decreases bribes.len() - i,
    {
        proof {
            assert(bribes.deep_view().subrange(0, i + 1).drop_last() =~= bribes.deep_view().subrange(0, i as int));
        }
        let x = match pair_share(weight, total, fee, bribes[i].amount) {
            Ok(x) => x,
            Err(a) => {
                proof {
                    lemma_claimable_prefix(weight, total, fee, bribes.deep_view(), i + 1);
                }
                return Err(a);
            },
        };
        let c = Coin { denom: bribes[i].denom.clone(), amount: x };
        let ghost before = out.deep_view();
        let ghost cm = c@;
        out.push(c);
        proof {
            assert(out.deep_view() =~= before.push(cm));
        }
        i = i + 1;
    }
    proof {
        assert(bribes.deep_view().subrange(0, bribes.len() as int) =~= bribes.deep_view());
    }
    Ok(out)
}

proof fn lemma_claimable_prefix(weight: u128, total: u128, fee: Option<Decimal>, b: Seq<CoinModel>, i: int)
    requires
        0 <= i <= b.len(),
        spec_claimable(weight, total, fee, b.subrange(0, i)) is Err,
    ensures
        spec_claimable(weight, total, fee, b) == spec_claimable(weight, total, fee, b.subrange(0, i)),
    decreases b.len() - i,
{
    if i < b.len() {
        assert(b.subrange(0, i + 1).drop_last() =~= b.subrange(0, i));
        lemma_claimable_prefix(weight, total, fee, b, i + 1);
    } else {
        assert(b.subrange(0, i) =~= b);
    }
}

fn merge(acc: &mut Vec<Coin>, coins: Vec<Coin>) -> (r: Result<(), Abort>)
    ensures
        match spec_merge(old(acc).deep_view(), coins.deep_view()) {
            Some(l) => r is Ok && final(acc).deep_view() == l,
            None => r == Err::<(), Abort>(Abort::Overflow),
        },
{
    let ghost a0 = acc.deep_view();
    let mut i: usize = 0;
    while i < coins.len()
        invariant
            i <= coins.len(),
            a0 == old(acc).deep_view(),
            spec_merge(a0, coins.deep_view().subrange(0, i as int)) == Some(acc.deep_view()),
        decreases coins.len() - i,
    {
        proof {
            assert(coins.deep_view().subrange(0, i + 1).drop_last() =~= coins.deep_view().subrange(0, i as int));
        }
        match add_coin(acc, coins[i].duplicate()) {
            Ok(()) => {},
            Err(a) => {
                proof {
                    lemma_merge_prefix(a0, coins.deep_view(), i + 1);
                }
                return Err(a);
            },
        }
        i = i + 1;
    }
    proof {
        assert(coins.deep_view().subrange(0, coins.len() as int) =~= coins.deep_view());
    }
    Ok(())
}

proof fn lemma_merge_prefix(a: Seq<CoinModel>, c: Seq<CoinModel>, i: int)
    requires
        0 <= i <= c.len(),
        spec_merge(a, c.subrange(0, i)) is None,
    ensures
        spec_merge(a, c) is None,
    decreases c.len() - i,
{
    if i < c.len() {
        assert(c.subrange(0, i + 1).drop_last() =~= c.subrange(0, i));
        lemma_merge_prefix(a, c, i + 1);
    } else {
        assert(c.subrange(0, i) =~= c);
    }
}

/// Adds to `acc` the bribes earned by the parts `votes` of a vote on `pid`.
pub(crate) fn accumulate(store: &ContractStore, pid: u64, acc: &mut Vec<Coin>, votes: &Vec<VotePair>, fees: Option<&DelegationInfo>) -> (r: Result<(), ContractError>)
    ensures
        match accumulate_votes(store, pid, old(acc).deep_view(), votes.deep_view(), fees_model(fees)) {
            Ok(l) => r is Ok && final(acc).deep_view() == l,
            Err(e) => r is Err && r->Err_0@ == e,
        },
{
    let ghost a0 = acc.deep_view();
    let mut i: usize = 0;
    while i < votes.len()
        invariant
            i <= votes.len(),
            a0 == old(acc).deep_view(),
            accumulate_votes(store, pid, a0, votes.deep_view().subrange(0, i as int), fees_model(fees)) == Ok::<Seq<CoinModel>, ErrorModel>(acc.deep_view()),
        decreases votes.len() - i,
    {
        proof {
            assert(votes.deep_view().subrange(0, i + 1).drop_last() =~= votes.deep_view().subrange(0, i as int));
        }
        let pair = votes[i];
        let total = match store.proposal_vote.load(&(pid, pair.extended_pair)) {
            Some(t) => t,
            None => {
                proof {
                    lemma_accumulate_prefix(store, pid, a0, votes.deep_view(), fees_model(fees), i + 1);
                }
                return Err(ContractError::not_found("cosmwasm_std::math::uint128::Uint128"));
            },
        };
        let bribes = match store.bribes_by_proposal.load(&(pid, pair.extended_pair)) {
            Some(b) => b,
            None => Vec::new(),
        };
        proof {
            if store.bribes_by_proposal.get((pid, pair.extended_pair)) is None {
                assert(bribes.deep_view() =~= Seq::<CoinModel>::empty());
            }
        }
        let fee = fee_for_pair(fees, pair.extended_pair);
        let c = match claimable(pair.vote_weight, total, fee, &bribes) {
            Ok(c) => c,
            Err(a) => {
                proof {
                    lemma_accumulate_prefix(store, pid, a0, votes.deep_view(), fees_model(fees), i + 1);
                }
                return Err(ContractError::aborted(a));
            },
        };
        match merge(acc, c) {
            Ok(()) => {},
            Err(a) => {
                proof {
                    lemma_accumulate_prefix(store, pid, a0, votes.deep_view(), fees_model(fees), i + 1);
                }
                return Err(ContractError::aborted(a));
            },
        }
        i = i + 1;
    }
    proof {
        assert(votes.deep_view().subrange(0, votes.len() as int) =~= votes.deep_view());
    }
    Ok(())
}

proof fn lemma_accumulate_prefix(store: &ContractStore, pid: u64, a: Seq<CoinModel>, v: Seq<VotePair>, fees: Option<DelegationInfoModel>, i: int)
    requires
        0 <= i <= v.len(),
        accumulate_votes(store, pid, a, v.subrange(0, i), fees) is Err,
    ensures
        accumulate_votes(store, pid, a, v, fees) == accumulate_votes(store, pid, a, v.subrange(0, i), fees),
    decreases v.len() - i,
{
    if i < v.len() {
        assert(v.subrange(0, i + 1).drop_last() =~= v.subrange(0, i));
        lemma_accumulate_prefix(store, pid, a, v, fees, i + 1);
    } else {
        assert(v.subrange(0, i) =~= v);
    }
}

/// The bribes that `sender` earned on proposal `pid`.
pub open spec fn spec_bribe_reward_proposal(store: &ContractStore, sender: Seq<char>, pid: u64) -> Result<Seq<CoinModel>, ErrorModel> {
    match store.voters_proposal.get((sender, pid)) {
        None => Err(missing("locking_contract::state::Vote")),
        Some(v) => accumulate_votes(store, pid, seq![], v.votes, None),
    }
}

/// The bribes that the sender earned on proposal `proposal_id` through its
/// vote, one coin per denomination.
pub fn calculate_bribe_reward_proposal(store: &ContractStore, _env: &Env, info: &MessageInfo, proposal_id: u64) -> (r: Result<Vec<Coin>, ContractError>)
    ensures
        match spec_bribe_reward_proposal(store, info@.sender, proposal_id) {
            Ok(l) => r is Ok && r->Ok_0.deep_view() == l,
            Err(e) => r is Err && r->Err_0@ == e,
        },
{
    let vote = match store.voters_proposal.load(&(info.sender.clone(), proposal_id)) {
        Some(v) => v,
        None => return Err(ContractError::not_found("locking_contract::state::Vote")),
    };
    let mut coins: Vec<Coin> = Vec::new();
    assert(coins.deep_view() =~= Seq::<CoinModel>::empty());
    accumulate(store, proposal_id, &mut coins, &vote.votes, None)?;
    Ok(coins)
}

/// The bribes `sender` earned over the proposals `props` it has not yet
/// claimed and voted on, added to `acc`, and the claimed proposals with the
/// newly counted ones appended.
pub open spec fn reward_over(store: &ContractStore, sender: Seq<char>, props: Seq<u64>, acc: Seq<CoinModel>, claimed: Seq<u64>) -> Result<(Seq<CoinModel>, Seq<u64>), ErrorModel>
    decreases props.len(),
{
    if props.len() == 0 {
        Ok((acc, claimed))
    } else {
        match reward_over(store, sender, props.drop_last(), acc, claimed) {
            Err(e) => Err(e),
            Ok((a, c)) => {
                let pid = props.last();
                if c.contains(pid) {
                    Ok((a, c))
                } else {
                    match store.voters_proposal.get((sender, pid)) {
                        None => Ok((a, c)),
                        Some(v) => match accumulate_votes(store, pid, a, v.votes, None) {
                            Err(e) => Err(e),
                            Ok(a2) => Ok((a2, c.push(pid))),
                        },
                    }
                }
            },
        }
    }
}

/// The proposals `sender` has claimed so far.
pub open spec fn claimed_of(store: &ContractStore, sender: Seq<char>) -> Seq<u64> {
    match store.voters_claimed_proposals.get(sender) {
        Some(c) => c,
        None => seq![],
    }
}

/// `r` is what keeping `c` sorted after each addition to `c0` gives: `c0`
/// itself when nothing was added, else `c` in ascending order.
pub open spec fn kept_sorted(r: Seq<u64>, c0: Seq<u64>, c: Seq<u64>) -> bool {
    if c.len() == c0.len() {
        r == c0
    } else {
        r.to_multiset() == c.to_multiset() && r.len() == c.len() && u64_sorted(r)
    }
}

/// The bribes the sender earned over the completed proposals
/// `all_proposals` that it has voted on and not yet claimed, and the list of
/// claimed proposals including them.
pub fn calculate_bribe_reward(store: &ContractStore, _env: &Env, info: &MessageInfo, all_proposals: Vec<u64>, _app_id: u64) -> (r: Result<(Vec<Coin>, Vec<u64>), ContractError>)
    ensures
        match reward_over(store, info@.sender, all_proposals@, seq![], claimed_of(store, info@.sender)) {
            Ok((l, c)) => r is Ok && r->Ok_0.0.deep_view() == l && kept_sorted(r->Ok_0.1@, claimed_of(store, info@.sender), c),
            Err(e) => r is Err && r->Err_0@ == e,
        },
{
    let mut coins: Vec<Coin> = Vec::new();
    assert(coins.deep_view() =~= Seq::<CoinModel>::empty());
    let mut claimed = match store.voters_claimed_proposals.load(&info.sender) {
        Some(c) => c,
        None => Vec::new(),
    };
    proof {
        crate::model::lemma_deep_view_u64(&claimed);
        if store.voters_claimed_proposals.get(info@.sender) is None {
            assert(claimed@ =~= Seq::<u64>::empty());
        }
    }
    let ghost c0 = claimed@;
    let initial_len = claimed.len();
    let mut i: usize = 0;
    while i < all_proposals.len()
        invariant
            i <= all_proposals.len(),
            c0 == claimed_of(store, info@.sender),
            initial_len == c0.len(),
            reward_over(store, info@.sender, all_proposals@.subrange(0, i as int), seq![], c0) == Ok::<(Seq<CoinModel>, Seq<u64>), ErrorModel>((coins.deep_view(), claimed@)),
        decreases all_proposals.len() - i,
    {
        proof {
            assert(all_proposals@.subrange(0, i + 1).drop_last() =~= all_proposals@.subrange(0, i as int));
        }
        let pid = all_proposals[i];
        if !contains_u64(&claimed, pid) {
            match store.voters_proposal.load(&(info.sender.clone(), pid)) {
                None => {},
                Some(v) => {
                    match accumulate(store, pid, &mut coins, &v.votes, None) {
                        Ok(()) => {},
                        Err(e) => {
                            proof {
                                lemma_reward_prefix(store, info@.sender, all_proposals@, c0, i + 1);
                            }
                            return Err(e);
                        },
                    }
                    claimed.push(pid);
                },
            }
        }
        i = i + 1;
    }
    proof {
        assert(all_proposals@.subrange(0, all_proposals.len() as int) =~= all_proposals@);
    }
    proof {
        lemma_reward_extends(store, info@.sender, all_proposals@, seq![], c0);
        if claimed.len() == initial_len {
            assert(claimed@ =~= claimed@.subrange(0, c0.len() as int));
        }
    }
    if claimed.len() != initial_len {
        sort_u64s(&mut claimed);
    }
    Ok((coins, claimed))
}

proof fn lemma_reward_extends(store: &ContractStore, sender: Seq<char>, props: Seq<u64>, acc: Seq<CoinModel>, c0: Seq<u64>)
    ensures
        reward_over(store, sender, props, acc, c0) matches Ok((a, c)) ==> c.len() >= c0.len() && c.subrange(0, c0.len() as int) == c0,
    decreases props.len(),
{
    if props.len() > 0 {
        lemma_reward_extends(store, sender, props.drop_last(), acc, c0);
        match reward_over(store, sender, props.drop_last(), acc, c0) {
            Ok((a, c)) => {
                assert(c.push(props.last()).subrange(0, c0.len() as int) =~= c.subrange(0, c0.len() as int));
            },
            Err(_) => {},
        }
    } else {
        assert(c0.subrange(0, c0.len() as int) =~= c0);
    }
}

proof fn lemma_reward_prefix(store: &ContractStore, sender: Seq<char>, props: Seq<u64>, c0: Seq<u64>, i: int)
    requires
        0 <= i <= props.len(),
        reward_over(store, sender, props.subrange(0, i), seq![], c0) is Err,
    ensures
        reward_over(store, sender, props, seq![], c0) == reward_over(store, sender, props.subrange(0, i), seq![], c0),
    decreases props.len() - i,
{
    if i < props.len() {
        assert(props.subrange(0, i + 1).drop_last() =~= props.subrange(0, i));
        lemma_reward_prefix(store, sender, props, c0, i + 1);
    } else {
        assert(props.subrange(0, i) =~= props);
    }
}

/// Whether `x` occurs in `v`.
pub fn contains_u64(v: &Vec<u64>, x: u64) -> (b: bool)
    ensures
        b == v@.contains(x),
{
    let mut i: usize = 0;
    while i < v.len()
        invariant
            i <= v.len(),
            forall|k: int| 0 <= k < i ==> v@[k] != x,
        decreases v.len() - i,
    {
        if v[i] == x {
            assert(v@[i as int] == x);
            return true;
        }
        i = i + 1;
    }
    false
}

/// `w` followed by a write marking each proposal of `ps` as claimed by `sender`.
pub open spec fn claim_marks(w: Seq<Write<(Seq<char>, u64), bool>>, sender: Seq<char>, ps: Seq<u64>) -> Seq<Write<(Seq<char>, u64), bool>>
    decreases ps.len(),
{
    if ps.len() == 0 {
        w
    } else {
        claim_marks(w, sender, ps.drop_last()).push(((sender, ps.last()), 0, Some(true)))
    }
}

/// `r` is `s` in ascending order.
pub open spec fn u64_sort_of(r: Seq<u64>, s: Seq<u64>) -> bool {
    r.to_multiset() == s.to_multiset() && r.len() == s.len() && u64_sorted(r)
}

/// `r` is `s` ordered by denomination.
pub open spec fn coin_sort_of(r: Seq<CoinModel>, s: Seq<CoinModel>) -> bool {
    r.to_multiset() == s.to_multiset() && r.len() == s.len() && denoms_sorted(r)
}

/// The response paying `coins` to `sender` for its bribes.
pub open spec fn claim_response(sender: Seq<char>, coins: Seq<CoinModel>) -> ResponseModel {
    ResponseModel {
        messages: seq![MsgModel::BankSend { to_address: sender, amount: coins }],
        attributes: seq![("method"@, "External Incentive Claimed"@)],
    }
}

/// The completed proposals of `app_id`.
pub open spec fn completed_of(store: &ContractStore, app_id: u64) -> Seq<u64> {
    match store.completed_proposals.get(app_id) {
        Some(c) => c,
        None => seq![],
    }
}

/// The outcome of `claim_rewards` from `old` to `new` with answer `r`.
pub open spec fn claim_outcome(old: &ContractStore, new: &ContractStore, r: Result<Response, ContractError>, info: MessageInfoModel, app_id: u64, proposal_id: Option<u64>) -> bool {
    let all = completed_of(old, app_id);
    let sender = info.sender;
    if info.funds.len() != 0 {
        r is Err && r->Err_0@ == ErrorModel::FundsNotAllowed && ContractStore::agrees(new, old, Set::empty())
    } else if old.delegation_info.get(sender) is Some {
        r is Err && r->Err_0@ == custom("Delegated address cannot claim") && ContractStore::agrees(new, old, Set::empty())
    } else {
        match proposal_id {
            Some(pid) => if !all.contains(pid) {
                r is Err && r->Err_0@ == custom("Proposal not completed") && ContractStore::agrees(new, old, Set::empty())
            } else if old.voters_claim.get((sender, pid)) == Some(true) {
                r is Err && r->Err_0@ == custom("Already claimed") && ContractStore::agrees(new, old, Set::empty())
            } else {
                match spec_bribe_reward_proposal(old, sender, pid) {
                    Err(e) => r is Err && r->Err_0@ == e && ContractStore::agrees(new, old, Set::empty()),
                    Ok(coins) => r is Ok && exists|sc: Seq<CoinModel>, cl: Seq<u64>|
                        #![trigger coin_sort_of(sc, coins), u64_sort_of(cl, claimed_of(old, sender).push(pid))]
                    {
                        &&& coin_sort_of(sc, coins)
                        &&& u64_sort_of(cl, claimed_of(old, sender).push(pid))
                        &&& r->Ok_0@ == claim_response(sender, sc)
                        &&& new.voters_claim.writes() == old.voters_claim.writes().push(((sender, pid), 0, Some(true)))
                        &&& new.voters_claimed_proposals.writes() == old.voters_claimed_proposals.writes().push((sender, 0, Some(cl)))
                        &&& ContractStore::agrees(new, old, set![Part::VotersClaim, Part::VotersClaimedProposals])
                    },
                }
            },
            None => match reward_over(old, sender, all, seq![], claimed_of(old, sender)) {
                Err(e) => r is Err && r->Err_0@ == e && ContractStore::agrees(new, old, Set::empty()),
                Ok((coins, c)) => if coins.len() == 0 {
                    r is Err && r->Err_0@ == custom("No rewards to claim.") && ContractStore::agrees(new, old, Set::empty())
                } else {
                    r is Ok && exists|sc: Seq<CoinModel>, cl: Seq<u64>|
                        #![trigger coin_sort_of(sc, coins), kept_sorted(cl, claimed_of(old, sender), c)]
                    {
                        &&& coin_sort_of(sc, coins)
                        &&& kept_sorted(cl, claimed_of(old, sender), c)
                        &&& r->Ok_0@ == claim_response(sender, sc)
                        &&& new.voters_claimed_proposals.writes() == old.voters_claimed_proposals.writes().push((sender, 0, Some(cl)))
                        &&& new.voters_claim.writes() == claim_marks(old.voters_claim.writes(), sender, cl)
                        &&& ContractStore::agrees(new, old, set![Part::VotersClaim, Part::VotersClaimedProposals])
                    }
                },
            },
        }
    }
}

pub(crate) fn pay_response(sender: &String, coins: Vec<Coin>) -> (r: Response)
    ensures
        r@ == claim_response(sender@, coins.deep_view()),
{
    let resp = Response::new().add_attribute_str("method", "External Incentive Claimed");
    let ghost cm = coins.deep_view();
    let resp = resp.add_message(CosmosMsg::BankSend { to_address: sender.clone(), amount: coins });
    proof {
        assert(resp@.messages =~= seq![MsgModel::BankSend { to_address: sender@, amount: cm }]);
        assert(resp@.attributes =~= seq![("method"@, "External Incentive Claimed"@)]);
    }
    resp
}

/// Claims the bribes earned by the sender's votes: on proposal
/// `proposal_id` when given, else on every completed proposal of `app_id`
/// not yet claimed. Claimed proposals are recorded so that nothing is paid
/// twice.
pub fn claim_rewards(store: &mut ContractStore, env: &Env, info: &MessageInfo, app_id: u64, proposal_id: Option<u64>) -> (r: Result<Response, ContractError>)
    ensures
        claim_outcome(old(store), final(store), r, info@, app_id, proposal_id),
{
    if info.funds.len() != 0 {
        return Err(ContractError::FundsNotAllowed {});
    }
    if store.delegation_info.load(&info.sender).is_some() {
        return Err(ContractError::custom("Delegated address cannot claim"));
    }
    let all_proposals = match store.completed_proposals.load(&app_id) {
        Some(v) => v,
        None => Vec::new(),
    };
    proof {
        crate::model::lemma_deep_view_u64(&all_proposals);
        if store.completed_proposals.get(app_id) is None {
            assert(all_proposals@ =~= Seq::<u64>::empty());
        }
    }
    if let Some(pid) = proposal_id {
        if !contains_u64(&all_proposals, pid) {
            return Err(ContractError::custom("Proposal not completed"));
        }
        let voters_claimed = match store.voters_claim.load(&(info.sender.clone(), pid)) {
            Some(b) => b,
            None => false,
        };
        if voters_claimed {
            return Err(ContractError::custom("Already claimed"));
        }
        let mut bribe_coin = calculate_bribe_reward_proposal(store, env, info, pid)?;
        let mut claimed = match store.voters_claimed_proposals.load(&info.sender) {
            Some(c) => c,
            None => Vec::new(),
        };
        proof {
            crate::model::lemma_deep_view_u64(&claimed);
            if store.voters_claimed_proposals.get(info@.sender) is None {
                assert(claimed@ =~= Seq::<u64>::empty());
            }
        }
        claimed.push(pid);
        sort_u64s(&mut claimed);
        proof {
            crate::model::lemma_deep_view_u64(&claimed);
        }
        let ghost cl = claimed@;
        store.voters_claim.save((info.sender.clone(), pid), true, 0);
        store.voters_claimed_proposals.save(info.sender.clone(), claimed, 0);
        let ghost coins = bribe_coin.deep_view();
        sort_coins_by_denom(&mut bribe_coin);
        let ghost sc = bribe_coin.deep_view();
        let resp = pay_response(&info.sender, bribe_coin);
        proof {
            assert(coin_sort_of(sc, coins));
            assert(u64_sort_of(cl, claimed_of(old(store), info@.sender).push(pid)));
        }
        return Ok(resp);
    }
    let (mut bribe_coins, claimed) = calculate_bribe_reward(store, env, info, all_proposals, app_id)?;
    if bribe_coins.len() == 0 {
        return Err(ContractError::custom("No rewards to claim."));
    }
    proof {
        crate::model::lemma_deep_view_u64(&claimed);
    }
    let ghost w0 = store.voters_claim.writes();
    let mut i: usize = 0;
    while i < claimed.len()
        invariant
            i <= claimed.len(),
            store.voters_claim.writes() == claim_marks(w0, info@.sender, claimed@.subrange(0, i as int)),
            ContractStore::agrees(store, old(store), set![Part::VotersClaim]),
            w0 == old(store).voters_claim.writes(),
        decreases claimed.len() - i,
    {
        proof {
            assert(claimed@.subrange(0, i + 1).drop_last() =~= claimed@.subrange(0, i as int));
        }
        store.voters_claim.save((info.sender.clone(), claimed[i]), true, 0);
        i = i + 1;
    }
    proof {
        assert(claimed@.subrange(0, claimed.len() as int) =~= claimed@);
        assert(claimed@.subrange(0, 0) =~= Seq::<u64>::empty());
    }
    let ghost cl = claimed@;
    store.voters_claimed_proposals.save(info.sender.clone(), claimed, 0);
    let ghost coins = bribe_coins.deep_view();
    sort_coins_by_denom(&mut bribe_coins);
    let ghost sc = bribe_coins.deep_view();
    let resp = pay_response(&info.sender, bribe_coins);
    proof {
        assert(coin_sort_of(sc, coins));
    }
    Ok(resp)
}

} // verus!
