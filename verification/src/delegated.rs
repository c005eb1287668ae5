//! Delegation of voting power to delegated addresses, and the bribes and
//! fees that delegators and delegated addresses claim.
use crate::coins::{add_coin, spec_add_coin};
use crate::contract::supply_change;
use crate::decimal::{spec_multiply_ratio, spec_plus_seconds, Decimal, Timestamp, DECIMAL_FRACTIONAL};
use crate::env::{Env, EnvModel, MessageInfo, MessageInfoModel};
use crate::error::{custom, missing, Abort, ContractError, ErrorModel};
use crate::model::{copy_u64s, Duplicate};
use crate::response::{attrs, CosmosMsg, MsgModel, Response, ResponseModel};
use crate::state::{
    Coin, CoinModel, Delegation, DelegationInfo, DelegationInfoModel, DelegationModel, DelegationStats,
    UserDelegationInfo, UserDelegationInfoModel,
};
use crate::store::{ContractStore, Part};
use crate::table::Write;
use crate::voting::{sum_vtokens, vtoken_power};
use crate::rewards::{
    accumulate, accumulate_votes, claim_marks, claim_response, coin_sort_of, completed_of, kept_sorted, pay_response,
    u64_sort_of,
};
use crate::text::{debug_u64s, sort_coins_by_denom, sort_u64s, u64s_debug_text};
use crate::rewards::{calculate_bribe_reward_proposal, claimed_of, spec_bribe_reward_proposal};
use crate::emission::POOL_OFFSET;
use crate::error::StdError;
use vstd::prelude::*;

verus! {

/// How long a delegation lasts before it may be undone, in seconds.
pub const DELEGATION_DURATION: u64 = 86400;

/// Index of the first delegation to `to` in `dels`, if any.
pub open spec fn delegation_index(dels: Seq<DelegationModel>, to: Seq<char>) -> Option<int>
    decreases dels.len(),
{
    if dels.len() == 0 {
        None
    } else if dels[0].delegated_to == to {
        Some(0)
    } else {
        match delegation_index(dels.drop_first(), to) {
            Some(i) => Some(i + 1),
            None => None,
        }
    }
}

pub(crate) proof fn lemma_delegation_index(dels: Seq<DelegationModel>, to: Seq<char>)
    ensures
        match delegation_index(dels, to) {
            Some(i) => 0 <= i < dels.len() && dels[i].delegated_to == to && forall|j: int| 0 <= j < i ==> dels[j].delegated_to != to,
            None => forall|j: int| 0 <= j < dels.len() ==> dels[j].delegated_to != to,
        },
    decreases dels.len(),
{
    if dels.len() > 0 {
        lemma_delegation_index(dels.drop_first(), to);
        assert forall|j: int| 0 < j < dels.len() implies #[trigger] dels[j] == dels.drop_first()[j - 1] by {}
    }
}

/// Finds the first delegation to `to` (see [`delegation_index`]).
pub fn find_delegation(dels: &Vec<Delegation>, to: &String) -> (r: Option<usize>)
    ensures
        match delegation_index(dels.deep_view(), to@) {
            Some(i) => 0 <= i < dels.len() && r == Some(i as usize),
            None => r is None,
        },
        r is Some ==> r->Some_0 < dels.len() && dels.deep_view()[r->Some_0 as int].delegated_to == to@,
{
    proof {
        lemma_delegation_index(dels.deep_view(), to@);
    }
    let mut i: usize = 0;
    while i < dels.len()
        invariant
            i <= dels.len(),
            forall|j: int| 0 <= j < i ==> dels.deep_view()[j].delegated_to != to@,
            match delegation_index(dels.deep_view(), to@) {
                Some(k) => 0 <= k < dels.len() && dels.deep_view()[k].delegated_to == to@ && forall|j: int| 0 <= j < k ==> dels.deep_view()[j].delegated_to != to@,
                None => forall|j: int| 0 <= j < dels.len() ==> dels.deep_view()[j].delegated_to != to@,
            },
        decreases dels.len() - i,
    {
        if dels[i].delegated_to == *to {
            assert(dels.deep_view()[i as int].delegated_to == to@);
            return Some(i);
        }
        i = i + 1;
    }
    None
}

/// What a delegation writes: the delegated address's statistics and the
/// sender's delegations.
pub struct DelegatePlan {
    pub stats: DelegationStats,
    pub user: UserDelegationInfoModel,
}

/// The effect of `sender` delegating `ratio` of its voting power in `denom`
/// to `to`, or why it is refused.
pub open spec fn spec_delegate(store: &ContractStore, env: EnvModel, info: MessageInfoModel, to: Seq<char>, denom: Seq<char>, ratio: Decimal) -> Result<DelegatePlan, ErrorModel> {
    if info.funds.len() != 0 {
        Err(ErrorModel::FundsNotAllowed)
    } else if store.delegation_info.get(to) is None {
        Err(custom("Delegation info not found"))
    } else if info.sender == to {
        Err(custom("Sender is not allowed to self-delegated"))
    } else {
        match store.vtokens.get_at((info.sender, denom), env.height) {
            None => Err(custom("No tokens locked to perform voting on proposals")),
            Some(l) => if vtoken_power(l) > u128::MAX {
                Err(ErrorModel::Aborted(Abort::Overflow))
            } else {
                match store.delegation_stats.get(to) {
                    None => Err(ErrorModel::Aborted(Abort::MissingValue)),
                    Some(stats) => match spec_multiply_ratio(vtoken_power(l) as u128, ratio.atomics, DECIMAL_FRACTIONAL) {
                        None => Err(ErrorModel::Aborted(Abort::Overflow)),
                        Some(amount) => {
                            let user = match store.delegated.get(info.sender) {
                                Some(u) => u,
                                None => UserDelegationInfoModel { total_casted: 0, delegations: seq![] },
                            };
                            match spec_plus_seconds(env.time, 86400) {
                                None => Err(ErrorModel::Aborted(Abort::Overflow)),
                                Some(end) => {
                                    let d = DelegationModel { delegated_to: to, delegated_at: env.time, delegation_end_at: end, delegated: amount };
                                    match delegation_index(user.delegations, to) {
                                        Some(i) => {
                                            let prev = user.delegations[i].delegated;
                                            let total = stats.total_delegated - prev + amount;
                                            let casted = user.total_casted - prev + amount;
                                            if stats.total_delegated < prev || total > u128::MAX || user.total_casted < prev || casted > u128::MAX {
                                                Err(ErrorModel::Aborted(Abort::Overflow))
                                            } else {
                                                Ok(DelegatePlan {
                                                    stats: DelegationStats { total_delegated: total as u128, ..stats },
                                                    user: UserDelegationInfoModel { total_casted: casted as u128, delegations: user.delegations.update(i, d) },
                                                })
                                            }
                                        },
                                        None => if stats.total_delegated + amount > u128::MAX || stats.total_delegators == u64::MAX {
                                            Err(ErrorModel::Aborted(Abort::Overflow))
                                        } else {
                                            Ok(DelegatePlan {
                                                stats: DelegationStats {
                                                    total_delegated: (stats.total_delegated + amount) as u128,
                                                    total_delegators: (stats.total_delegators + 1) as u64,
                                                },
                                                user: UserDelegationInfoModel { delegations: user.delegations.push(d), ..user },
                                            })
                                        },
                                    }
                                },
                            }
                        },
                    },
                }
            },
        }
    }
}

/// The outcome of `delegate` from `old` to `new` with answer `r`.
pub open spec fn delegate_outcome(old: &ContractStore, new: &ContractStore, r: Result<Response, ContractError>, env: EnvModel, info: MessageInfoModel, delegation_address: Seq<char>, denom: Seq<char>, ratio: Decimal) -> bool {
    match spec_delegate(old, env, info, delegation_address, denom, ratio) {
        Err(e) => r is Err && r->Err_0@ == e && ContractStore::agrees(new, old, Set::empty()),
        Ok(plan) => {
            &&& r is Ok
            &&& r->Ok_0@ == attrs(seq![("action"@, "delegate"@), ("from"@, info.sender), ("delegated_address"@, delegation_address)])
            &&& new.delegation_stats.writes() == old.delegation_stats.writes().push((delegation_address, env.height, Some(plan.stats)))
            &&& new.delegated.writes() == old.delegated.writes().push((info.sender, env.height, Some(plan.user)))
            &&& ContractStore::agrees(new, old, set![Part::DelegationStats, Part::Delegated])
        },
    }
}

/// `info.sender` delegates `ratio` of its current voting power in `denom` to
/// `delegation_address`, replacing an earlier delegation to it.
pub fn delegate(store: &mut ContractStore, env: &Env, info: &MessageInfo, delegation_address: String, denom: String, ratio: Decimal) -> (r: Result<Response, ContractError>)
    ensures
        delegate_outcome(old(store), final(store), r, env@, info@, delegation_address@, denom@, ratio),
{
    if info.funds.len() != 0 {
        return Err(ContractError::FundsNotAllowed {});
    }
    if store.delegation_info.load(&delegation_address).is_none() {
        return Err(ContractError::custom("Delegation info not found"));
    }
    if info.sender == delegation_address {
        return Err(ContractError::custom("Sender is not allowed to self-delegated"));
    }
    let vtokens = match store.vtokens.load_at_height(&(info.sender.clone(), denom.clone()), env.block.height) {
        Some(v) => v,
        None => return Err(ContractError::custom("No tokens locked to perform voting on proposals")),
    };
    let vote_power = match sum_vtokens(&vtokens) {
        Some(p) => p,
        None => return Err(ContractError::aborted(Abort::Overflow)),
    };
    let mut stats = match store.delegation_stats.load(&delegation_address) {
        Some(s) => s,
        None => return Err(ContractError::aborted(Abort::MissingValue)),
    };
    let amount = match ratio.checked_mul_amount(vote_power) {
        Some(a) => a,
        None => return Err(ContractError::aborted(Abort::Overflow)),
    };
    let mut user = match store.delegated.load(&info.sender) {
        Some(u) => u,
        None => UserDelegationInfo { total_casted: 0, delegations: Vec::new() },
    };
    proof {
        if store.delegated.get(info@.sender) is None {
            assert(user@ == UserDelegationInfoModel { total_casted: 0, delegations: seq![] }) by {
                assert(user.delegations.deep_view() =~= Seq::<DelegationModel>::empty());
            }
        }
    }
    let end = match env.block.time.checked_plus_seconds(DELEGATION_DURATION) {
        Some(t) => t,
        None => return Err(ContractError::aborted(Abort::Overflow)),
    };
    let d = Delegation { delegated_to: delegation_address.clone(), delegated_at: env.block.time, delegation_end_at: end, delegated: amount };
    let ghost dm = d@;
    let ghost dels0 = user.delegations.deep_view();
    match find_delegation(&user.delegations, &delegation_address) {
        Some(i) => {
            let prev = user.delegations[i].delegated;
            assert(prev == dels0[i as int].delegated);
            if stats.total_delegated < prev || user.total_casted < prev {
                return Err(ContractError::aborted(Abort::Overflow));
            }
            let total = match (stats.total_delegated - prev).checked_add(amount) {
                Some(t) => t,
                None => return Err(ContractError::aborted(Abort::Overflow)),
            };
            let casted = match (user.total_casted - prev).checked_add(amount) {
                Some(t) => t,
                None => return Err(ContractError::aborted(Abort::Overflow)),
            };
            user.delegations.set(i, d);
            proof {
                assert(user.delegations.deep_view() =~= dels0.update(i as int, dm));
            }
            stats.total_delegated = total;
            user.total_casted = casted;
        },
        None => {
            let total = match stats.total_delegated.checked_add(amount) {
                Some(t) => t,
                None => return Err(ContractError::aborted(Abort::Overflow)),
            };
            if stats.total_delegators == u64::MAX {
                return Err(ContractError::aborted(Abort::Overflow));
            }
            user.delegations.push(d);
            proof {
                assert(user.delegations.deep_view() =~= dels0.push(dm));
            }
            stats.total_delegated = total;
            stats.total_delegators = stats.total_delegators + 1;
        },
    }
    store.delegation_stats.save(delegation_address.clone(), stats, env.block.height);
    store.delegated.save(info.sender.clone(), user, env.block.height);
    let resp = Response::new().add_attribute_str("action", "delegate").add_attribute("from", info.sender.clone()).add_attribute("delegated_address", delegation_address);
    proof {
        assert(resp@.attributes =~= seq![("action"@, "delegate"@), ("from"@, info@.sender), ("delegated_address"@, delegation_address@)]);
    }
    Ok(resp)
}

/// What undoing a delegation writes.
pub struct UndelegatePlan {
    pub stats: DelegationStats,
    pub user: UserDelegationInfoModel,
}

/// The effect of `sender` undoing its delegation to `to`, or why it is refused.
pub open spec fn spec_undelegate(store: &ContractStore, env: EnvModel, info: MessageInfoModel, to: Seq<char>) -> Result<UndelegatePlan, ErrorModel> {
    if info.funds.len() != 0 {
        Err(ErrorModel::FundsNotAllowed)
    } else if store.delegation_info.get(to) is None {
        Err(custom("Delegation info not found"))
    } else {
        match store.delegation_stats.get(to) {
            None => Err(missing("locking_contract::state::DelegationStats")),
            Some(stats) => match store.delegated.get(info.sender) {
                None => Err(missing("locking_contract::state::UserDelegationInfo")),
                Some(user) => match delegation_index(user.delegations, to) {
                    None => Err(custom("No active delegation present to undelegate")),
                    Some(i) => {
                        let d = user.delegations[i];
                        if d.delegation_end_at.nanos > env.time.nanos {
                            Err(custom("Yet to reach UnDelegation time"))
                        } else if stats.total_delegated < d.delegated || stats.total_delegators == 0 {
                            Err(ErrorModel::Aborted(Abort::Overflow))
                        } else {
                            Ok(UndelegatePlan {
                                stats: DelegationStats {
                                    total_delegated: (stats.total_delegated - d.delegated) as u128,
                                    total_delegators: (stats.total_delegators - 1) as u64,
                                },
                                user: UserDelegationInfoModel {
                                    delegations: user.delegations.update(i, user.delegations.last()).drop_last(),
                                    ..user
                                },
                            })
                        }
                    },
                },
            },
        }
    }
}

/// The outcome of `undelegate` from `old` to `new` with answer `r`.
pub open spec fn undelegate_outcome(old: &ContractStore, new: &ContractStore, r: Result<Response, ContractError>, env: EnvModel, info: MessageInfoModel, delegation_address: Seq<char>) -> bool {
    match spec_undelegate(old, env, info, delegation_address) {
        Err(e) => r is Err && r->Err_0@ == e && ContractStore::agrees(new, old, Set::empty()),
        Ok(plan) => {
            &&& r is Ok
            &&& r->Ok_0@ == attrs(seq![("action"@, "undelegate"@), ("from"@, info.sender), ("delegated_address"@, delegation_address)])
            &&& new.delegated.writes() == old.delegated.writes().push((info.sender, env.height, Some(plan.user)))
            &&& new.delegation_stats.writes() == old.delegation_stats.writes().push((delegation_address, env.height, Some(plan.stats)))
            &&& ContractStore::agrees(new, old, set![Part::DelegationStats, Part::Delegated])
        },
    }
}

/// `info.sender` undoes its delegation to `delegation_address`, once the
/// delegation period has passed.
pub fn undelegate(store: &mut ContractStore, env: &Env, info: &MessageInfo, delegation_address: String) -> (r: Result<Response, ContractError>)
    ensures
        undelegate_outcome(old(store), final(store), r, env@, info@, delegation_address@),
{
    if info.funds.len() != 0 {
        return Err(ContractError::FundsNotAllowed {});
    }
    if store.delegation_info.load(&delegation_address).is_none() {
        return Err(ContractError::custom("Delegation info not found"));
    }
    let mut stats = match store.delegation_stats.load(&delegation_address) {
        Some(s) => s,
        None => return Err(ContractError::not_found("locking_contract::state::DelegationStats")),
    };
    let mut user = match store.delegated.load(&info.sender) {
        Some(u) => u,
        None => return Err(ContractError::not_found("locking_contract::state::UserDelegationInfo")),
    };
    let i = match find_delegation(&user.delegations, &delegation_address) {
        Some(i) => i,
        None => return Err(ContractError::custom("No active delegation present to undelegate")),
    };
    let ghost dels0 = user.delegations.deep_view();
    if user.delegations[i].delegation_end_at.nanos > env.block.time.nanos {
        return Err(ContractError::custom("Yet to reach UnDelegation time"));
    }
    let delegated = user.delegations[i].delegated;
    if stats.total_delegated < delegated || stats.total_delegators == 0 {
        return Err(ContractError::aborted(Abort::Overflow));
    }
    stats.total_delegated = stats.total_delegated - delegated;
    stats.total_delegators = stats.total_delegators - 1;
    let ghost v0 = user.delegations@;
    let _removed = user.delegations.swap_remove(i);
    proof {
        assert(user.delegations.deep_view() =~= dels0.update(i as int, dels0.last()).drop_last()) by {
            assert(user.delegations@ == v0.update(i as int, v0.last()).drop_last());
        }
    }
    store.delegated.save(info.sender.clone(), user, env.block.height);
    store.delegation_stats.save(delegation_address.clone(), stats, env.block.height);
    let resp = Response::new().add_attribute_str("action", "undelegate").add_attribute("from", info.sender.clone()).add_attribute("delegated_address", delegation_address);
    proof {
        assert(resp@.attributes =~= seq![("action"@, "undelegate"@), ("from"@, info@.sender), ("delegated_address"@, delegation_address@)]);
    }
    Ok(resp)
}

/// The new parameters of the delegated address `addr` once its protocol fees
/// become `fees`, or why the change is refused.
pub open spec fn spec_update_protocol_fees(store: &ContractStore, info: MessageInfoModel, addr: Seq<char>, fees: Decimal) -> Result<DelegationInfoModel, ErrorModel> {
    match store.delegation_info.get(addr) {
        None => Err(custom("Delegation address does not exist")),
        Some(di) => if di.delegated_address != info.sender {
            Err(custom("Sender is not the owner of the delegation"))
        } else if fees.atomics > di.delegator_fees.atomics {
            Err(custom("New Delegator fees cannot be greater than delegator fees nor can be less than 0%"))
        } else {
            Ok(DelegationInfoModel { protocol_fees: fees, ..di })
        },
    }
}

/// The outcome of `update_protocol_fees` from `old` to `new` with answer `r`.
pub open spec fn protocol_fees_outcome(old: &ContractStore, new: &ContractStore, r: Result<Response, ContractError>, env: EnvModel, info: MessageInfoModel, delegation_address: Seq<char>, new_protocol_fees: Decimal) -> bool {
    match spec_update_protocol_fees(old, info, delegation_address, new_protocol_fees) {
        Err(e) => r is Err && r->Err_0@ == e && ContractStore::agrees(new, old, Set::empty()),
        Ok(di) => {
            &&& r is Ok
            &&& r->Ok_0@ == attrs(seq![("action"@, "update_protocol_fees"@), ("from"@, info.sender)])
            &&& new.delegation_info.writes() == old.delegation_info.writes().push((delegation_address, env.height, Some(di)))
            &&& ContractStore::agrees(new, old, set![Part::DelegationInfo])
        },
    }
}

/// The owner of the delegated address `delegation_address` sets its protocol
/// fees, which may not exceed its delegator fees.
pub fn update_protocol_fees(store: &mut ContractStore, env: &Env, info: &MessageInfo, delegation_address: String, new_protocol_fees: Decimal) -> (r: Result<Response, ContractError>)
    ensures
        protocol_fees_outcome(old(store), final(store), r, env@, info@, delegation_address@, new_protocol_fees),
{
    let mut di = match store.delegation_info.load(&delegation_address) {
        Some(d) => d,
        None => return Err(ContractError::custom("Delegation address does not exist")),
    };
    if di.delegated_address != info.sender {
        return Err(ContractError::custom("Sender is not the owner of the delegation"));
    }
    if new_protocol_fees.atomics > di.delegator_fees.atomics {
        return Err(ContractError::custom("New Delegator fees cannot be greater than delegator fees nor can be less than 0%"));
    }
    di.protocol_fees = new_protocol_fees;
    store.delegation_info.save(delegation_address, di, env.block.height);
    let resp = Response::new().add_attribute_str("action", "update_protocol_fees").add_attribute("from", info.sender.clone());
    proof {
        assert(resp@.attributes =~= seq![("action"@, "update_protocol_fees"@), ("from"@, info@.sender)]);
    }
    Ok(resp)
}

/// A delegator's part of a bribe of `amount` earned by a delegated address:
/// its share `amount * (delegated / total)` split into what the delegator
/// keeps and the fee `share * fee` of the delegated address.
pub open spec fn spec_delegator_share(amount: u128, delegated: u128, total: u128, fee: Decimal) -> Result<(u128, u128), Abort> {
    match spec_multiply_ratio(delegated, DECIMAL_FRACTIONAL, total) {
        None => if total == 0 {
            Err(Abort::DivideByZero)
        } else {
            Err(Abort::Overflow)
        },
        Some(ratio) => match spec_multiply_ratio(amount, ratio, DECIMAL_FRACTIONAL) {
            None => Err(Abort::Overflow),
            Some(share) => match spec_multiply_ratio(share, fee.atomics, DECIMAL_FRACTIONAL) {
                None => Err(Abort::Overflow),
                Some(f) => if f > share {
                    Err(Abort::Overflow)
                } else {
                    Ok(((share - f) as u128, f))
                },
            },
        },
    }
}

/// Computes a delegator's part of a bribe (see [`spec_delegator_share`]).
pub fn delegator_share(amount: u128, delegated: u128, total: u128, fee: Decimal) -> (r: Result<(u128, u128), Abort>)
    ensures
        r == spec_delegator_share(amount, delegated, total, fee),
{
    let ratio = match Decimal::checked_from_ratio(delegated, total) {
        Some(d) => d,
        None => return if total == 0 {
            Err(Abort::DivideByZero)
        } else {
            Err(Abort::Overflow)
        },
    };
    let share = match ratio.checked_mul_amount(amount) {
        Some(s) => s,
        None => return Err(Abort::Overflow),
    };
    let f = match fee.checked_mul_amount(share) {
        Some(f) => f,
        None => return Err(Abort::Overflow),
    };
    if f > share {
        return Err(Abort::Overflow);
    }
    Ok((share - f, f))
}

/// The delegator's parts of each coin of `coins`, and the fees.
pub open spec fn spec_split_shares(coins: Seq<CoinModel>, delegated: u128, total: u128, fee: Decimal) -> Result<(Seq<CoinModel>, Seq<CoinModel>), Abort>
    decreases coins.len(),
{
    if coins.len() == 0 {
        Ok((seq![], seq![]))
    } else {
        match spec_split_shares(coins.drop_last(), delegated, total, fee) {
            Err(a) => Err(a),
            Ok((u, f)) => match spec_delegator_share(coins.last().amount, delegated, total, fee) {
                Err(a) => Err(a),
                Ok((us, fs)) => Ok((
                    u.push(CoinModel { denom: coins.last().denom, amount: us }),
                    f.push(CoinModel { denom: coins.last().denom, amount: fs }),
                )),
            },
        }
    }
}

proof fn lemma_split_prefix(coins: Seq<CoinModel>, delegated: u128, total: u128, fee: Decimal, i: int)
    requires
        0 <= i <= coins.len(),
        spec_split_shares(coins.subrange(0, i), delegated, total, fee) is Err,
    ensures
        spec_split_shares(coins, delegated, total, fee) == spec_split_shares(coins.subrange(0, i), delegated, total, fee),
    decreases coins.len() - i,
{
    if i < coins.len() {
        assert(coins.subrange(0, i + 1).drop_last() =~= coins.subrange(0, i));
        lemma_split_prefix(coins, delegated, total, fee, i + 1);
    } else {
        assert(coins.subrange(0, i) =~= coins);
    }
}

fn split_shares(coins: &Vec<Coin>, delegated: u128, total: u128, fee: Decimal) -> (r: Result<(Vec<Coin>, Vec<Coin>), Abort>)
    ensures
        match spec_split_shares(coins.deep_view(), delegated, total, fee) {
            Ok((u, f)) => r is Ok && r->Ok_0.0.deep_view() == u && r->Ok_0.1.deep_view() == f,
            Err(a) => r == Err::<(Vec<Coin>, Vec<Coin>), Abort>(a),
        },
{
    let mut users: Vec<Coin> = Vec::new();
    let mut fees: Vec<Coin> = Vec::new();
    assert(users.deep_view() =~= Seq::<CoinModel>::empty());
    assert(fees.deep_view() =~= Seq::<CoinModel>::empty());
    let mut i: usize = 0;
    while i < coins.len()
        invariant
            i <= coins.len(),
            spec_split_shares(coins.deep_view().subrange(0, i as int), delegated, total, fee) == Ok::<(Seq<CoinModel>, Seq<CoinModel>), Abort>((users.deep_view(), fees.deep_view())),
        decreases coins.len() - i,
    {
        proof {
            assert(coins.deep_view().subrange(0, i + 1).drop_last() =~= coins.deep_view().subrange(0, i as int));
        }
        let (us, fs) = match delegator_share(coins[i].amount, delegated, total, fee) {
            Ok(p) => p,
            Err(a) => {
                proof {
                    lemma_split_prefix(coins.deep_view(), delegated, total, fee, i + 1);
                }
                return Err(a);
            },
        };
        let uc = Coin { denom: coins[i].denom.clone(), amount: us };
        let fc = Coin { denom: coins[i].denom.clone(), amount: fs };
        let ghost (u0, f0) = (users.deep_view(), fees.deep_view());
        let ghost (um, fm) = (uc@, fc@);
        users.push(uc);
        fees.push(fc);
        proof {
            assert(users.deep_view() =~= u0.push(um));
            assert(fees.deep_view() =~= f0.push(fm));
        }
        i = i + 1;
    }
    proof {
        assert(coins.deep_view().subrange(0, coins.len() as int) =~= coins.deep_view());
    }
    Ok((users, fees))
}

/// The bribes that the delegated address `daddr` earned on proposal `pid`
/// through its vote, less the protocol fees on pairs not excluded from
/// fees, with its parameters as they were when the proposal was raised.
pub open spec fn delegated_earnings(store: &ContractStore, pid: u64, daddr: Seq<char>, di: DelegationInfoModel) -> Result<Seq<CoinModel>, ErrorModel> {
    match store.voters_proposal.get((daddr, pid)) {
        None => Ok(seq![]),
        Some(v) => accumulate_votes(store, pid, seq![], v.votes, Some(di)),
    }
}

/// What `sender` earns on proposal `pid` through its delegation to `daddr`,
/// and the fees of `daddr` on it, per coin of the bribes `daddr` earned.
pub open spec fn spec_delegated_reward(store: &ContractStore, sender: Seq<char>, pid: u64, daddr: Seq<char>) -> Result<(Seq<CoinModel>, Seq<CoinModel>), ErrorModel> {
    match store.proposal.get(pid) {
        None => Err(custom("Proposal does not exist.")),
        Some(p) => match store.delegation_info.get_at(daddr, p.height) {
            None => Err(ErrorModel::Aborted(Abort::MissingValue)),
            Some(di) => match delegated_earnings(store, pid, daddr, di) {
                Err(e) => Err(e),
                Ok(coins) => match store.delegated.get_at(sender, p.height) {
                    None => Err(custom("delegation does not exist")),
                    Some(u) => match delegation_index(u.delegations, daddr) {
                        None => Err(ErrorModel::Aborted(Abort::MissingValue)),
                        Some(i) => match store.delegation_stats.get_at(daddr, p.height) {
                            None => Err(ErrorModel::Aborted(Abort::MissingValue)),
                            Some(stats) => match spec_split_shares(coins, u.delegations[i].delegated, stats.total_delegated, di.delegator_fees) {
                                Err(a) => Err(ErrorModel::Aborted(a)),
                                Ok(pair) => Ok(pair),
                            },
                        },
                    },
                },
            },
        },
    }
}

/// The bribes that the sender earned on proposal `proposal_id` through its
/// delegation to `delegated_address`, and the fees that the delegated
/// address keeps of them (see [`spec_delegated_reward`]).
pub fn calculate_bribe_reward_proposal_delegated(store: &ContractStore, _env: &Env, info: &MessageInfo, proposal_id: u64, delegated_address: &String) -> (r: Result<(Vec<Coin>, Vec<Coin>), ContractError>)
    ensures
        match spec_delegated_reward(store, info@.sender, proposal_id, delegated_address@) {
            Ok((u, f)) => r is Ok && r->Ok_0.0.deep_view() == u && r->Ok_0.1.deep_view() == f,
            Err(e) => r is Err && r->Err_0@ == e,
        },
{
    let proposal = match store.proposal.load(&proposal_id) {
        Some(p) => p,
        None => return Err(ContractError::custom("Proposal does not exist.")),
    };
    let di = match store.delegation_info.load_at_height(delegated_address, proposal.height) {
        Some(d) => d,
        None => return Err(ContractError::aborted(Abort::MissingValue)),
    };
    let mut earned: Vec<Coin> = Vec::new();
    assert(earned.deep_view() =~= Seq::<CoinModel>::empty());
    match store.voters_proposal.load(&(delegated_address.clone(), proposal_id)) {
        Some(vote) => {
            accumulate(store, proposal_id, &mut earned, &vote.votes, Some(&di))?;
        },
        None => {},
    }
    let user = match store.delegated.load_at_height(&info.sender, proposal.height) {
        Some(u) => u,
        None => return Err(ContractError::custom("delegation does not exist")),
    };
    let i = match find_delegation(&user.delegations, delegated_address) {
        Some(i) => i,
        None => return Err(ContractError::aborted(Abort::MissingValue)),
    };
    let stats = match store.delegation_stats.load_at_height(delegated_address, proposal.height) {
        Some(s) => s,
        None => return Err(ContractError::aborted(Abort::MissingValue)),
    };
    assert(user.delegations[i as int]@.delegated == user.delegations[i as int].delegated);
    match split_shares(&earned, user.delegations[i].delegated, stats.total_delegated, di.delegator_fees) {
        Ok(pair) => Ok(pair),
        Err(a) => Err(ContractError::aborted(a)),
    }
}

/// The proposals whose bribes `sender` has claimed as a delegator.
pub open spec fn delegator_claimed_of(store: &ContractStore, sender: Seq<char>) -> Seq<u64> {
    match store.delegator_claimed_proposals.get(sender) {
        Some(c) => c,
        None => seq![],
    }
}

/// What `sender` earns through its delegation to `daddr` over the proposals
/// `props`, skipping those it has claimed already (before, or earlier in the
/// list): the bribes it keeps, the fees of `daddr`, each concatenated in the
/// order of the proposals, and the proposals counted.
pub open spec fn delegated_over(store: &ContractStore, sender: Seq<char>, daddr: Seq<char>, props: Seq<u64>) -> Result<(Seq<CoinModel>, Seq<CoinModel>, Seq<u64>), ErrorModel>
    decreases props.len(),
{
    if props.len() == 0 {
        Ok((seq![], seq![], seq![]))
    } else {
        match delegated_over(store, sender, daddr, props.drop_last()) {
            Err(e) => Err(e),
            Ok((u, f, n)) => {
                let pid = props.last();
                if store.delegator_claim.get((sender, pid)) == Some(true) || n.contains(pid) {
                    Ok((u, f, n))
                } else {
                    match spec_delegated_reward(store, sender, pid, daddr) {
                        Err(e) => Err(e),
                        Ok((u2, f2)) => Ok((u + u2, f + f2, n.push(pid))),
                    }
                }
            },
        }
    }
}

proof fn lemma_delegated_over_prefix(store: &ContractStore, sender: Seq<char>, daddr: Seq<char>, props: Seq<u64>, i: int)
    requires
        0 <= i <= props.len(),
        delegated_over(store, sender, daddr, props.subrange(0, i)) is Err,
    ensures
        delegated_over(store, sender, daddr, props) == delegated_over(store, sender, daddr, props.subrange(0, i)),
    decreases props.len() - i,
{
    if i < props.len() {
        assert(props.subrange(0, i + 1).drop_last() =~= props.subrange(0, i));
        lemma_delegated_over_prefix(store, sender, daddr, props, i + 1);
    } else {
        assert(props.subrange(0, i) =~= props);
    }
}

fn append_coins(acc: &mut Vec<Coin>, more: &Vec<Coin>)
    ensures
        final(acc).deep_view() == old(acc).deep_view() + more.deep_view(),
{
    let ghost a0 = acc.deep_view();
    let mut i: usize = 0;
    while i < more.len()
        invariant
            i <= more.len(),
            acc.deep_view() == a0 + more.deep_view().subrange(0, i as int),
        decreases more.len() - i,
    {
        let ghost before = acc.deep_view();
        let c = more[i].duplicate();
        acc.push(c);
        proof {
            assert(acc.deep_view() =~= before.push(more.deep_view()[i as int]));
            assert(more.deep_view().subrange(0, i + 1) =~= more.deep_view().subrange(0, i as int).push(more.deep_view()[i as int]));
        }
        i = i + 1;
    }
    proof {
        assert(more.deep_view().subrange(0, more.len() as int) =~= more.deep_view());
    }
}

fn delegated_rewards_over(store: &ContractStore, env: &Env, info: &MessageInfo, delegated_address: &String, props: &Vec<u64>) -> (r: Result<(Vec<Coin>, Vec<Coin>, Vec<u64>), ContractError>)
    ensures
        match delegated_over(store, info@.sender, delegated_address@, props@) {
            Ok((u, f, n)) => r is Ok && r->Ok_0.0.deep_view() == u && r->Ok_0.1.deep_view() == f && r->Ok_0.2@ == n,
            Err(e) => r is Err && r->Err_0@ == e,
        },
{
    let mut users: Vec<Coin> = Vec::new();
    let mut fees: Vec<Coin> = Vec::new();
    let mut newly: Vec<u64> = Vec::new();
    assert(users.deep_view() =~= Seq::<CoinModel>::empty());
    assert(fees.deep_view() =~= Seq::<CoinModel>::empty());
    assert(newly@ =~= Seq::<u64>::empty());
    let mut i: usize = 0;
    while i < props.len()
        invariant
            i <= props.len(),
            delegated_over(store, info@.sender, delegated_address@, props@.subrange(0, i as int)) == Ok::<(Seq<CoinModel>, Seq<CoinModel>, Seq<u64>), ErrorModel>((users.deep_view(), fees.deep_view(), newly@)),
        decreases props.len() - i,
    {
        proof {
            assert(props@.subrange(0, i + 1).drop_last() =~= props@.subrange(0, i as int));
        }
        let pid = props[i];
        let done = match store.delegator_claim.load(&(info.sender.clone(), pid)) {
            Some(b) => b,
            None => false,
        };
        if !done && !crate::rewards::contains_u64(&newly, pid) {
            let (u, f) = match calculate_bribe_reward_proposal_delegated(store, env, info, pid, delegated_address) {
                Ok(p) => p,
                Err(e) => {
                    proof {
                        lemma_delegated_over_prefix(store, info@.sender, delegated_address@, props@, i + 1);
                    }
                    return Err(e);
                },
            };
            append_coins(&mut users, &u);
            append_coins(&mut fees, &f);
            newly.push(pid);
        }
        i = i + 1;
    }
    proof {
        assert(props@.subrange(0, props.len() as int) =~= props@);
    }
    Ok((users, fees, newly))
}

/// The response paying a delegator its `bribes` and the delegated address's
/// fee collector its `fees`; `None` when there is nothing to pay.
pub open spec fn delegated_claim_response(sender: Seq<char>, collector: Seq<char>, bribes: Seq<CoinModel>, fees: Seq<CoinModel>) -> Option<ResponseModel> {
    let attributes = seq![("method"@, "External Incentive Claimed"@)];
    let to_sender = MsgModel::BankSend { to_address: sender, amount: bribes };
    let to_collector = MsgModel::BankSend { to_address: collector, amount: fees };
    if bribes.len() != 0 {
        if fees.len() != 0 {
            Some(ResponseModel { messages: seq![to_sender, to_collector], attributes })
        } else {
            Some(ResponseModel { messages: seq![to_sender], attributes })
        }
    } else if fees.len() != 0 {
        Some(ResponseModel { messages: seq![to_collector], attributes })
    } else {
        None
    }
}

fn delegated_pay_response(sender: &String, collector: &String, bribes: Vec<Coin>, fees: Vec<Coin>) -> (r: Response)
    requires
        bribes.len() != 0 || fees.len() != 0,
    ensures
        delegated_claim_response(sender@, collector@, bribes.deep_view(), fees.deep_view()) == Some(r@),
{
    let ghost bm = bribes.deep_view();
    let ghost fm = fees.deep_view();
    let resp = Response::new().add_attribute_str("method", "External Incentive Claimed");
    let nb = bribes.len();
    let nf = fees.len();
    let resp = if nb != 0 {
        let resp = resp.add_message(CosmosMsg::BankSend { to_address: sender.clone(), amount: bribes });
        if nf != 0 {
            resp.add_message(CosmosMsg::BankSend { to_address: collector.clone(), amount: fees })
        } else {
            resp
        }
    } else {
        resp.add_message(CosmosMsg::BankSend { to_address: collector.clone(), amount: fees })
    };
    proof {
        assert(resp@.attributes =~= seq![("method"@, "External Incentive Claimed"@)]);
        let to_sender = MsgModel::BankSend { to_address: sender@, amount: bm };
        let to_collector = MsgModel::BankSend { to_address: collector@, amount: fm };
        if nb != 0 {
            if nf != 0 {
                assert(resp@.messages =~= seq![to_sender, to_collector]);
            } else {
                assert(resp@.messages =~= seq![to_sender]);
            }
        } else {
            assert(resp@.messages =~= seq![to_collector]);
        }
    }
    resp
}

/// The outcome of `claim_rewards_delegated` from `old` to `new` with answer `r`.
pub open spec fn claim_delegated_outcome(old: &ContractStore, new: &ContractStore, r: Result<Response, ContractError>, info: MessageInfoModel, daddr: Seq<char>, proposal_id: Option<u64>, app_id: u64) -> bool {
    let sender = info.sender;
    let c0 = delegator_claimed_of(old, sender);
    match old.delegation_info.get(daddr) {
        None => r is Err && r->Err_0@ == custom("Invalid Delegated Address") && ContractStore::agrees(new, old, Set::empty()),
        Some(di) => if info.funds.len() != 0 {
            r is Err && r->Err_0@ == ErrorModel::FundsNotAllowed && ContractStore::agrees(new, old, Set::empty())
        } else {
            match proposal_id {
                Some(pid) => if old.delegator_claim.get((sender, pid)) == Some(true) {
                    r is Err && r->Err_0@ == custom("Already Claimed") && ContractStore::agrees(new, old, Set::empty())
                } else {
                    match spec_delegated_reward(old, sender, pid, daddr) {
                        Err(e) => r is Err && r->Err_0@ == e && ContractStore::agrees(new, old, Set::empty()),
                        Ok((u, f)) => if u.len() == 0 && f.len() == 0 {
                            r is Err && r->Err_0@ == custom("No rewards to claim.") && ContractStore::agrees(new, old, Set::empty())
                        } else {
                            r is Ok && exists|su: Seq<CoinModel>, sf: Seq<CoinModel>, cl: Seq<u64>|
                                #![trigger coin_sort_of(su, u), coin_sort_of(sf, f), u64_sort_of(cl, c0.push(pid))]
                            {
                                &&& coin_sort_of(su, u)
                                &&& coin_sort_of(sf, f)
                                &&& u64_sort_of(cl, c0.push(pid))
                                &&& delegated_claim_response(sender, di.fee_collector_address, su, sf) == Some(r->Ok_0@)
                                &&& new.delegator_claim.writes() == old.delegator_claim.writes().push(((sender, pid), 0, Some(true)))
                                &&& new.delegator_claimed_proposals.writes() == old.delegator_claimed_proposals.writes().push((sender, 0, Some(cl)))
                                &&& ContractStore::agrees(new, old, set![Part::DelegatorClaim, Part::DelegatorClaimedProposals])
                            }
                        },
                    }
                },
                None => match delegated_over(old, sender, daddr, completed_of(old, app_id)) {
                    Err(e) => r is Err && r->Err_0@ == e && ContractStore::agrees(new, old, Set::empty()),
                    Ok((u, f, n)) => if u.len() == 0 {
                        r is Err && r->Err_0@ == custom("No rewards to claim.") && ContractStore::agrees(new, old, Set::empty())
                    } else {
                        r is Ok && exists|su: Seq<CoinModel>, cl: Seq<u64>|
                            #![trigger coin_sort_of(su, u), kept_sorted(cl, c0, c0 + n)]
                        {
                            &&& coin_sort_of(su, u)
                            &&& kept_sorted(cl, c0, c0 + n)
                            &&& r->Ok_0@ == claim_response(sender, su)
                            &&& new.delegator_claim.writes() == claim_marks(old.delegator_claim.writes(), sender, n)
                            &&& new.delegator_claimed_proposals.writes() == old.delegator_claimed_proposals.writes().push((sender, 0, Some(cl)))
                            &&& ContractStore::agrees(new, old, set![Part::DelegatorClaim, Part::DelegatorClaimedProposals])
                        }
                    },
                },
            }
        },
    }
}

/// A delegator claims the bribes earned through its delegation to
/// `delegated_address`: on proposal `proposal_id` when given, with the fees of
/// the delegated address paid to its fee collector; else on every completed
/// proposal of `app_id` not yet claimed, where the fees computed are not
/// paid out. Claimed proposals are recorded so that nothing is paid twice.
pub fn claim_rewards_delegated(store: &mut ContractStore, env: &Env, info: &MessageInfo, delegated_address: String, proposal_id: Option<u64>, app_id: u64) -> (r: Result<Response, ContractError>)
    ensures
        claim_delegated_outcome(old(store), final(store), r, info@, delegated_address@, proposal_id, app_id),
{
    let di = match store.delegation_info.load(&delegated_address) {
        Some(d) => d,
        None => return Err(ContractError::custom("Invalid Delegated Address")),
    };
    if info.funds.len() != 0 {
        return Err(ContractError::FundsNotAllowed {});
    }
    let mut claimed = match store.delegator_claimed_proposals.load(&info.sender) {
        Some(c) => c,
        None => Vec::new(),
    };
    proof {
        crate::model::lemma_deep_view_u64(&claimed);
        if store.delegator_claimed_proposals.get(info@.sender) is None {
            assert(claimed@ =~= Seq::<u64>::empty());
        }
    }
    let ghost c0 = claimed@;
    if let Some(pid) = proposal_id {
        let done = match store.delegator_claim.load(&(info.sender.clone(), pid)) {
            Some(b) => b,
            None => false,
        };
        if done {
            return Err(ContractError::custom("Already Claimed"));
        }
        let (mut users, mut fees) = calculate_bribe_reward_proposal_delegated(store, env, info, pid, &delegated_address)?;
        if users.len() == 0 && fees.len() == 0 {
            return Err(ContractError::custom("No rewards to claim."));
        }
        claimed.push(pid);
        sort_u64s(&mut claimed);
        proof {
            crate::model::lemma_deep_view_u64(&claimed);
        }
        let ghost cl = claimed@;
        store.delegator_claim.save((info.sender.clone(), pid), true, 0);
        store.delegator_claimed_proposals.save(info.sender.clone(), claimed, 0);
        let ghost (u, f) = (users.deep_view(), fees.deep_view());
        sort_coins_by_denom(&mut users);
        sort_coins_by_denom(&mut fees);
        let ghost (su, sf) = (users.deep_view(), fees.deep_view());
        let resp = delegated_pay_response(&info.sender, &di.fee_collector_address, users, fees);
        proof {
            assert(coin_sort_of(su, u));
            assert(coin_sort_of(sf, f));
            assert(u64_sort_of(cl, c0.push(pid)));
            assert(delegated_claim_response(info@.sender, di@.fee_collector_address, su, sf) == Some(resp@));
            assert(store.delegator_claim.writes() == old(store).delegator_claim.writes().push(((info@.sender, pid), 0, Some(true))));
            assert(store.delegator_claimed_proposals.writes() == old(store).delegator_claimed_proposals.writes().push((info@.sender, 0, Some(cl))));
            assert(ContractStore::agrees(store, old(store), set![Part::DelegatorClaim, Part::DelegatorClaimedProposals]));
            assert(spec_delegated_reward(old(store), info@.sender, pid, delegated_address@) == Ok::<(Seq<CoinModel>, Seq<CoinModel>), ErrorModel>((u, f)));
            assert(old(store).delegator_claim.get((info@.sender, pid)) != Some(true));
            assert(old(store).delegation_info.get(delegated_address@) == Some(di@));
            assert(!(u.len() == 0 && f.len() == 0));
            assert(c0 == delegator_claimed_of(old(store), info@.sender));
        }
        return Ok(resp);
    }
    let all_proposals = match store.completed_proposals.load(&app_id) {
        Some(v) => v,
        None => Vec::new(),
    };
    proof {
        crate::model::lemma_deep_view_u64(&all_proposals);
        if store.completed_proposals.get(app_id) is None {
            assert(all_proposals@ =~= Seq::<u64>::empty());
        }
    }
    let (mut users, _fees, newly) = delegated_rewards_over(store, env, info, &delegated_address, &all_proposals)?;
    if users.len() == 0 {
        return Err(ContractError::custom("No rewards to claim."));
    }
    let ghost w0 = store.delegator_claim.writes();
    let mut i: usize = 0;
    while i < newly.len()
        invariant
            i <= newly.len(),
            claimed@ == c0 + newly@.subrange(0, i as int),
            store.delegator_claim.writes() == claim_marks(w0, info@.sender, newly@.subrange(0, i as int)),
            ContractStore::agrees(store, old(store), set![Part::DelegatorClaim]),
            w0 == old(store).delegator_claim.writes(),
        decreases newly.len() - i,
    {
        proof {
            assert(newly@.subrange(0, i + 1).drop_last() =~= newly@.subrange(0, i as int));
            assert(newly@.subrange(0, i + 1) =~= newly@.subrange(0, i as int).push(newly@[i as int]));
        }
        store.delegator_claim.save((info.sender.clone(), newly[i]), true, 0);
        claimed.push(newly[i]);
        i = i + 1;
    }
    proof {
        assert(newly@.subrange(0, newly.len() as int) =~= newly@);
        assert(newly@.subrange(0, 0) =~= Seq::<u64>::empty());
    }
    if newly.len() != 0 {
        sort_u64s(&mut claimed);
    }
    proof {
        crate::model::lemma_deep_view_u64(&claimed);
        if newly.len() == 0 {
            assert(claimed@ =~= c0);
        }
    }
    let ghost cl = claimed@;
    store.delegator_claimed_proposals.save(info.sender.clone(), claimed, 0);
    let ghost u = users.deep_view();
    sort_coins_by_denom(&mut users);
    let ghost su = users.deep_view();
    let resp = pay_response(&info.sender, users);
    proof {
        assert(coin_sort_of(su, u));
        assert(kept_sorted(cl, c0, c0 + newly@));
        assert(delegated_over(old(store), info@.sender, delegated_address@, completed_of(old(store), app_id)) == Ok::<(Seq<CoinModel>, Seq<CoinModel>, Seq<u64>), ErrorModel>((u, _fees.deep_view(), newly@)));
        assert(u.len() != 0);
        assert(old(store).delegation_info.get(delegated_address@) is Some);
        assert(c0 == delegator_claimed_of(old(store), info@.sender));
    }
    Ok(resp)
}

/// What the chain answers for an update of the pairs excluded from fees:
/// whether the two apps exist, the extended pairs of the first and the
/// pools of the second.
pub struct ExcludedPairFacts {
    pub harbor_app: Result<(), StdError>,
    pub cswap_app: Result<(), StdError>,
    pub ext_pairs: Result<Vec<u64>, StdError>,
    pub pools: Result<Vec<u64>, StdError>,
}

/// Pool ids in the numbering of votable pairs: each id times the pool
/// offset; `None` when one does not fit.
pub open spec fn scaled_pools(pools: Seq<u64>) -> Option<Seq<u64>> {
    if exists|i: int| 0 <= i < pools.len() && #[trigger] pools[i] > u64::MAX / POOL_OFFSET {
        None
    } else {
        Some(pools.map_values(|p: u64| (p * POOL_OFFSET) as u64))
    }
}

fn scale_pools(pools: &Vec<u64>) -> (r: Option<Vec<u64>>)
    ensures
        match scaled_pools(pools@) {
            Some(s) => r is Some && r->Some_0@ == s,
            None => r is None,
        },
{
    let mut out: Vec<u64> = Vec::new();
    let mut i: usize = 0;
    while i < pools.len()
        invariant
            i <= pools.len(),
            out.len() == i,
            forall|j: int| 0 <= j < i ==> #[trigger] pools@[j] <= u64::MAX / POOL_OFFSET,
            forall|j: int| 0 <= j < i ==> #[trigger] out@[j] == pools@[j] * POOL_OFFSET,
        decreases pools.len() - i,
    {
        if pools[i] > u64::MAX / POOL_OFFSET {
            return None;
        }
        out.push(pools[i] * POOL_OFFSET);
        i = i + 1;
    }
    assert(out@ =~= pools@.map_values(|p: u64| (p * POOL_OFFSET) as u64));
    Some(out)
}

/// `cur` with each pair of `cand` appended, in order, that is not in it yet
/// and is both an extended pair and a pool.
pub open spec fn add_excluded(cur: Seq<u64>, cand: Seq<u64>, ext: Seq<u64>, pools: Seq<u64>) -> Seq<u64>
    decreases cand.len(),
{
    if cand.len() == 0 {
        cur
    } else {
        let r = add_excluded(cur, cand.drop_last(), ext, pools);
        let p = cand.last();
        if !r.contains(p) && ext.contains(p) && pools.contains(p) {
            r.push(p)
        } else {
            r
        }
    }
}

/// The new parameters of the delegated address `addr` with the pairs
/// `pairs` excluded from its fees, or why the update is refused.
pub open spec fn spec_update_excluded(store: &ContractStore, info: MessageInfoModel, addr: Seq<char>, pairs: Seq<u64>, facts: &ExcludedPairFacts) -> Result<DelegationInfoModel, ErrorModel> {
    if info.funds.len() != 0 {
        Err(ErrorModel::FundsNotAllowed)
    } else {
        match store.delegation_info.get(addr) {
            None => Err(custom("Delegation address does not exist")),
            Some(di) => if di.delegated_address != info.sender {
                Err(custom("Sender is not the owner of the delegation"))
            } else {
                match (facts.harbor_app, facts.cswap_app, facts.ext_pairs, facts.pools) {
                    (Err(e), _, _, _) => Err(ErrorModel::Std(e@)),
                    (Ok(_), Err(e), _, _) => Err(ErrorModel::Std(e@)),
                    (Ok(_), Ok(_), Err(e), _) => Err(ErrorModel::Std(e@)),
                    (Ok(_), Ok(_), Ok(_), Err(e)) => Err(ErrorModel::Std(e@)),
                    (Ok(_), Ok(_), Ok(ext), Ok(pools)) => match scaled_pools(pools@) {
                        None => Err(ErrorModel::Aborted(Abort::Overflow)),
                        Some(sp) => Ok(DelegationInfoModel {
                            excluded_fee_pair: add_excluded(di.excluded_fee_pair, pairs, ext@, sp),
                            ..di
                        }),
                    },
                }
            },
        }
    }
}

/// The outcome of `update_excluded_fee_pair` from `old` to `new` with answer `r`.
pub open spec fn excluded_outcome(old: &ContractStore, new: &ContractStore, r: Result<Response, ContractError>, env: EnvModel, info: MessageInfoModel, delegation_address: Seq<char>, excluded_fee_pair: Seq<u64>, facts: &ExcludedPairFacts) -> bool {
    match spec_update_excluded(old, info, delegation_address, excluded_fee_pair, facts) {
        Err(e) => r is Err && r->Err_0@ == e && ContractStore::agrees(new, old, Set::empty()),
        Ok(di) => {
            &&& r is Ok
            &&& r->Ok_0@ == attrs(seq![("method"@, "update_excluded_fee_pair"@), ("excluded_fee_pair"@, u64s_debug_text(di.excluded_fee_pair))])
            &&& new.delegation_info.writes() == old.delegation_info.writes().push((delegation_address, env.height, Some(di)))
            &&& ContractStore::agrees(new, old, set![Part::DelegationInfo])
        },
    }
}

/// The owner of the delegated address `delegation_address` excludes pairs
/// from its protocol fees: of `excluded_fee_pair`, those that are extended
/// pairs of the app `harbor_app_id` and pools of the app `cswap_app_id`
/// (in the numbering of votable pairs), as `facts` gives them.
pub fn update_excluded_fee_pair(
    store: &mut ContractStore,
    env: &Env,
    info: &MessageInfo,
    delegation_address: String,
    _harbor_app_id: u64,
    _cswap_app_id: u64,
    excluded_fee_pair: Vec<u64>,
    facts: &ExcludedPairFacts,
) -> (r: Result<Response, ContractError>)
    ensures
        excluded_outcome(old(store), final(store), r, env@, info@, delegation_address@, excluded_fee_pair@, facts),
{
    if info.funds.len() != 0 {
        return Err(ContractError::FundsNotAllowed {});
    }
    let mut di = match store.delegation_info.load(&delegation_address) {
        Some(d) => d,
        None => return Err(ContractError::custom("Delegation address does not exist")),
    };
    if di.delegated_address != info.sender {
        return Err(ContractError::custom("Sender is not the owner of the delegation"));
    }
    match &facts.harbor_app {
        Err(e) => return Err(ContractError::Std(e.copy())),
        Ok(_) => {},
    }
    match &facts.cswap_app {
        Err(e) => return Err(ContractError::Std(e.copy())),
        Ok(_) => {},
    }
    let ext_pairs = match &facts.ext_pairs {
        Err(e) => return Err(ContractError::Std(e.copy())),
        Ok(v) => v,
    };
    let pools = match &facts.pools {
        Err(e) => return Err(ContractError::Std(e.copy())),
        Ok(v) => v,
    };
    let pools = match scale_pools(pools) {
        Some(p) => p,
        None => return Err(ContractError::aborted(Abort::Overflow)),
    };
    proof {
        crate::model::lemma_deep_view_u64(&di.excluded_fee_pair);
    }
    let ghost cur0 = di.excluded_fee_pair@;
    let ghost d0 = di@;
    let mut i: usize = 0;
    while i < excluded_fee_pair.len()
        invariant
            i <= excluded_fee_pair.len(),
            di.delegated_address@ == d0.delegated_address,
            di.delegator_fees == d0.delegator_fees,
            di.protocol_fees == d0.protocol_fees,
            di.fee_collector_address@ == d0.fee_collector_address,
            di.excluded_fee_pair@ == add_excluded(cur0, excluded_fee_pair@.subrange(0, i as int), ext_pairs@, pools@),
        decreases excluded_fee_pair.len() - i,
    {
        proof {
            assert(excluded_fee_pair@.subrange(0, i + 1).drop_last() =~= excluded_fee_pair@.subrange(0, i as int));
        }
        let pair = excluded_fee_pair[i];
        if !crate::rewards::contains_u64(&di.excluded_fee_pair, pair) && crate::rewards::contains_u64(ext_pairs, pair)
            && crate::rewards::contains_u64(&pools, pair) {
            di.excluded_fee_pair.push(pair);
        }
        i = i + 1;
    }
    proof {
        assert(excluded_fee_pair@.subrange(0, excluded_fee_pair.len() as int) =~= excluded_fee_pair@);
        crate::model::lemma_deep_view_u64(&di.excluded_fee_pair);
    }
    let text = debug_u64s(&di.excluded_fee_pair);
    let ghost final_di = di@;
    store.delegation_info.save(delegation_address, di, env.block.height);
    let resp = Response::new().add_attribute_str("method", "update_excluded_fee_pair").add_attribute("excluded_fee_pair", text);
    proof {
        assert(resp@.attributes =~= seq![("method"@, "update_excluded_fee_pair"@), ("excluded_fee_pair"@, text@)]);
        let d0 = old(store).delegation_info.get(delegation_address@)->Some_0;
        assert(facts.ext_pairs is Ok && facts.ext_pairs->Ok_0@ == ext_pairs@);
        assert(facts.pools is Ok && scaled_pools(facts.pools->Ok_0@) == Some(pools@));
        assert(final_di == DelegationInfoModel { excluded_fee_pair: add_excluded(d0.excluded_fee_pair, excluded_fee_pair@, ext_pairs@, pools@), ..d0 });
        assert(spec_update_excluded(old(store), info@, delegation_address@, excluded_fee_pair@, facts) == Ok::<DelegationInfoModel, ErrorModel>(final_di));
    }
    Ok(resp)
}

/// `coins` with each amount multiplied by `rate`; `None` when one overflows.
pub open spec fn scale_coins(coins: Seq<CoinModel>, rate: Decimal) -> Option<Seq<CoinModel>>
    decreases coins.len(),
{
    if coins.len() == 0 {
        Some(seq![])
    } else {
        match scale_coins(coins.drop_last(), rate) {
            None => None,
            Some(l) => match spec_multiply_ratio(coins.last().amount, rate.atomics, DECIMAL_FRACTIONAL) {
                None => None,
                Some(a) => Some(l.push(CoinModel { denom: coins.last().denom, amount: a })),
            },
        }
    }
}

proof fn lemma_scale_prefix(coins: Seq<CoinModel>, rate: Decimal, i: int)
    requires
        0 <= i <= coins.len(),
        scale_coins(coins.subrange(0, i), rate) is None,
    ensures
        scale_coins(coins, rate) is None,
    decreases coins.len() - i,
{
    if i < coins.len() {
        assert(coins.subrange(0, i + 1).drop_last() =~= coins.subrange(0, i));
        lemma_scale_prefix(coins, rate, i + 1);
    } else {
        assert(coins.subrange(0, i) =~= coins);
    }
}

fn scale(coins: &Vec<Coin>, rate: Decimal) -> (r: Option<Vec<Coin>>)
    ensures
        match scale_coins(coins.deep_view(), rate) {
            Some(l) => r is Some && r->Some_0.deep_view() == l,
            None => r is None,
        },
{
    let mut out: Vec<Coin> = Vec::new();
    assert(out.deep_view() =~= Seq::<CoinModel>::empty());
    let mut i: usize = 0;
    while i < coins.len()
        invariant
            i <= coins.len(),
            scale_coins(coins.deep_view().subrange(0, i as int), rate) == Some(out.deep_view()),
        decreases coins.len() - i,
    {
        proof {
            assert(coins.deep_view().subrange(0, i + 1).drop_last() =~= coins.deep_view().subrange(0, i as int));
        }
        let a = match rate.checked_mul_amount(coins[i].amount) {
            Some(a) => a,
            None => {
                proof {
                    lemma_scale_prefix(coins.deep_view(), rate, i + 1);
                }
                return None;
            },
        };
        let c = Coin { denom: coins[i].denom.clone(), amount: a };
        let ghost before = out.deep_view();
        let ghost cm = c@;
        out.push(c);
        proof {
            assert(out.deep_view() =~= before.push(cm));
        }
        i = i + 1;
    }
    proof {
        assert(coins.deep_view().subrange(0, coins.len() as int) =~= coins.deep_view());
    }
    Some(out)
}

/// The protocol fees that the delegated address `daddr` collects on
/// proposal `pid` (its bribes times its protocol fees, as they were when the
/// proposal was raised), with the fee collector, or why it is refused.
pub open spec fn spec_protocol_fee_claim(store: &ContractStore, info: MessageInfoModel, daddr: Seq<char>, app_id: u64, pid: u64) -> Result<(Seq<char>, Seq<CoinModel>), ErrorModel> {
    if info.funds.len() != 0 {
        Err(ErrorModel::FundsNotAllowed)
    } else if info.sender != daddr {
        Err(custom("Sender is not a delegated address"))
    } else {
        match store.proposal.get(pid) {
            None => Err(missing("locking_contract::state::Proposal")),
            Some(p) => match store.delegation_info.get_at(daddr, p.height) {
                None => Err(custom("Delegation info not found")),
                Some(di) => if !completed_of(store, app_id).contains(pid) {
                    Err(custom("Proposal not completed"))
                } else if store.voters_claim.get((info.sender, pid)) == Some(true) {
                    Err(custom("Voter already claimed"))
                } else {
                    match spec_bribe_reward_proposal(store, info.sender, pid) {
                        Err(e) => Err(e),
                        Ok(coins) => match scale_coins(coins, di.protocol_fees) {
                            None => Err(ErrorModel::Aborted(Abort::Overflow)),
                            Some(fees) => Ok((di.fee_collector_address, fees)),
                        },
                    }
                },
            },
        }
    }
}

/// The outcome of `delegated_protocol_fee_claim` from `old` to `new` with
/// answer `r`.
pub open spec fn protocol_fee_outcome(old: &ContractStore, new: &ContractStore, r: Result<Response, ContractError>, info: MessageInfoModel, daddr: Seq<char>, app_id: u64, pid: u64) -> bool {
    match spec_protocol_fee_claim(old, info, daddr, app_id, pid) {
        Err(e) => r is Err && r->Err_0@ == e && ContractStore::agrees(new, old, Set::empty()),
        Ok((collector, fees)) => r is Ok && exists|sf: Seq<CoinModel>, cl: Seq<u64>|
            #![trigger coin_sort_of(sf, fees), u64_sort_of(cl, claimed_of(old, info.sender).push(pid))]
        {
            &&& coin_sort_of(sf, fees)
            &&& u64_sort_of(cl, claimed_of(old, info.sender).push(pid))
            &&& r->Ok_0@ == (ResponseModel {
                messages: seq![MsgModel::BankSend { to_address: collector, amount: sf }],
                attributes: seq![("action"@, "Withdraw protocol fees "@), ("from"@, info.sender)],
            })
            &&& new.voters_claimed_proposals.writes() == old.voters_claimed_proposals.writes().push((info.sender, 0, Some(cl)))
            &&& new.voters_claim.writes() == old.voters_claim.writes().push(((info.sender, pid), 0, Some(true)))
            &&& ContractStore::agrees(new, old, set![Part::VotersClaim, Part::VotersClaimedProposals])
        },
    }
}

/// The delegated address `delegated_address` collects its protocol fees on
/// the bribes earned by its vote on the completed proposal `proposal_id`, and
/// the proposal is marked as claimed by it.
pub fn delegated_protocol_fee_claim(store: &mut ContractStore, env: &Env, info: &MessageInfo, delegated_address: String, app_id: u64, proposal_id: u64) -> (r: Result<Response, ContractError>)
    ensures
        protocol_fee_outcome(old(store), final(store), r, info@, delegated_address@, app_id, proposal_id),
{
    if info.funds.len() != 0 {
        return Err(ContractError::FundsNotAllowed {});
    }
    if info.sender != delegated_address {
        return Err(ContractError::custom("Sender is not a delegated address"));
    }
    let proposal = match store.proposal.load(&proposal_id) {
        Some(p) => p,
        None => return Err(ContractError::not_found("locking_contract::state::Proposal")),
    };
    let di = match store.delegation_info.load_at_height(&delegated_address, proposal.height) {
        Some(d) => d,
        None => return Err(ContractError::custom("Delegation info not found")),
    };
    let all_proposals = match store.completed_proposals.load(&app_id) {
        Some(v) => v,
        None => Vec::new(),
    };
    proof {
        crate::model::lemma_deep_view_u64(&all_proposals);
        if store.completed_proposals.get(app_id) is None {
            assert(all_proposals@ =~= Seq::<u64>::empty());
        }
    }
    if !crate::rewards::contains_u64(&all_proposals, proposal_id) {
        return Err(ContractError::custom("Proposal not completed"));
    }
    let voters_claimed = match store.voters_claim.load(&(info.sender.clone(), proposal_id)) {
        Some(b) => b,
        None => false,
    };
    if voters_claimed {
        return Err(ContractError::custom("Voter already claimed"));
    }
    let bribes = calculate_bribe_reward_proposal(store, env, info, proposal_id)?;
    let mut fees = match scale(&bribes, di.protocol_fees) {
        Some(f) => f,
        None => return Err(ContractError::aborted(Abort::Overflow)),
    };
    let mut claimed = match store.voters_claimed_proposals.load(&info.sender) {
        Some(c) => c,
        None => Vec::new(),
    };
    proof {
        crate::model::lemma_deep_view_u64(&claimed);
        if store.voters_claimed_proposals.get(info@.sender) is None {
            assert(claimed@ =~= Seq::<u64>::empty());
        }
    }
    claimed.push(proposal_id);
    sort_u64s(&mut claimed);
    proof {
        crate::model::lemma_deep_view_u64(&claimed);
    }
    let ghost cl = claimed@;
    let ghost f0 = fees.deep_view();
    sort_coins_by_denom(&mut fees);
    let ghost sf = fees.deep_view();
    store.voters_claimed_proposals.save(info.sender.clone(), claimed, 0);
    store.voters_claim.save((info.sender.clone(), proposal_id), true, 0);
    let resp = Response::new().add_message(CosmosMsg::BankSend { to_address: di.fee_collector_address.clone(), amount: fees });
    let resp = resp.add_attribute_str("action", "Withdraw protocol fees ").add_attribute("from", info.sender.clone());
    proof {
        assert(resp@.messages =~= seq![MsgModel::BankSend { to_address: di@.fee_collector_address, amount: sf }]);
        assert(resp@.attributes =~= seq![("action"@, "Withdraw protocol fees "@), ("from"@, info@.sender)]);
        assert(coin_sort_of(sf, f0));
        assert(u64_sort_of(cl, claimed_of(old(store), info@.sender).push(proposal_id)));
        assert(spec_bribe_reward_proposal(old(store), info@.sender, proposal_id) == Ok::<Seq<CoinModel>, ErrorModel>(bribes.deep_view()));
        assert(scale_coins(bribes.deep_view(), di@.protocol_fees) == Some(f0));
        assert(spec_protocol_fee_claim(old(store), info@, delegated_address@, app_id, proposal_id) == Ok::<(Seq<char>, Seq<CoinModel>), ErrorModel>((di@.fee_collector_address, f0)));
        assert(store.voters_claim.writes() == old(store).voters_claim.writes().push(((info@.sender, proposal_id), 0, Some(true))));
        assert(ContractStore::agrees(store, old(store), set![Part::VotersClaim, Part::VotersClaimedProposals]));
        assert(resp@ == (ResponseModel {
            messages: seq![MsgModel::BankSend { to_address: di@.fee_collector_address, amount: sf }],
            attributes: seq![("action"@, "Withdraw protocol fees "@), ("from"@, info@.sender)],
        }));
        assert(store.voters_claimed_proposals.writes() == old(store).voters_claimed_proposals.writes().push((info@.sender, 0, Some(cl))));
        assert(coin_sort_of(sf, f0) && u64_sort_of(cl, claimed_of(old(store), info@.sender).push(proposal_id)));
        assert(match spec_protocol_fee_claim(old(store), info@, delegated_address@, app_id, proposal_id) { Ok((collector, fees)) => coin_sort_of(sf, fees), Err(_) => false });
        assert(match spec_protocol_fee_claim(old(store), info@, delegated_address@, app_id, proposal_id) { Ok((collector, fees)) => resp@ == (ResponseModel {
                messages: seq![MsgModel::BankSend { to_address: collector, amount: sf }],
                attributes: seq![("action"@, "Withdraw protocol fees "@), ("from"@, info@.sender)],
            }), Err(_) => false });
        assert(ContractStore::agrees(store, old(store), set![Part::VotersClaim, Part::VotersClaimedProposals]));
        assert(protocol_fee_outcome(old(store), store, Ok(resp), info@, delegated_address@, app_id, proposal_id));
    }
    Ok(resp)
}

} // verus!
