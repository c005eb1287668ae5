//! Withdrawing unlocked tokens, with the adjustment of delegations that the
//! smaller voting power calls for.
use crate::contract::supply_change;
use crate::decimal::{spec_multiply_ratio, Decimal, DECIMAL_FRACTIONAL};
use crate::env::{Env, EnvModel, MessageInfo, MessageInfoModel};
use crate::error::{Abort, ContractError, ErrorModel};
use crate::model::Duplicate;
use crate::response::{CosmosMsg, MsgModel, Response, ResponseModel};
use crate::state::{Coin, CoinModel, Delegation, DelegationModel, DelegationStats, TokenSupply, UserDelegationInfo, UserDelegationInfoModel, Vtoken, VtokenModel};
use crate::store::{ContractStore, Part};
use crate::table::{latest, no_bound, Table, Write};
use crate::text::{debug_string, debug_text};
use crate::voting::{sum_vtokens, vtoken_power};
use vstd::prelude::*;

verus! {

/// The locks of `l` whose locking period has ended before `now`.
pub open spec fn unlocked_part(l: Seq<VtokenModel>, now: u64) -> Seq<VtokenModel>
    decreases l.len(),
{
    if l.len() == 0 {
        seq![]
    } else if l.last().end_time.nanos < now {
        unlocked_part(l.drop_last(), now).push(l.last())
    } else {
        unlocked_part(l.drop_last(), now)
    }
}

/// The locks of `l` that are still locked at `now`, in their order.
pub open spec fn locked_part(l: Seq<VtokenModel>, now: u64) -> Seq<VtokenModel>
    decreases l.len(),
{
    if l.len() == 0 {
        seq![]
    } else if l.last().end_time.nanos < now {
        locked_part(l.drop_last(), now)
    } else {
        locked_part(l.drop_last(), now).push(l.last())
    }
}

/// Sum of the locked token amounts.
pub open spec fn token_sum(l: Seq<VtokenModel>) -> int
    decreases l.len(),
{
    if l.len() == 0 {
        0
    } else {
        token_sum(l.drop_last()) + l.last().token.amount
    }
}

pub proof fn lemma_parts(l: Seq<VtokenModel>, now: u64)
    ensures
        vtoken_power(unlocked_part(l, now)) + vtoken_power(locked_part(l, now)) == vtoken_power(l),
        token_sum(unlocked_part(l, now)) + token_sum(locked_part(l, now)) == token_sum(l),
        vtoken_power(unlocked_part(l, now)) >= 0,
        vtoken_power(locked_part(l, now)) >= 0,
        token_sum(unlocked_part(l, now)) >= 0,
        token_sum(locked_part(l, now)) >= 0,
    decreases l.len(),
{
    if l.len() > 0 {
        lemma_parts(l.drop_last(), now);
        let u = unlocked_part(l.drop_last(), now);
        let k = locked_part(l.drop_last(), now);
        assert(u.push(l.last()).drop_last() =~= u);
        assert(k.push(l.last()).drop_last() =~= k);
    }
}

/// The statistics of the delegated addresses after each delegation of `dels`
/// is scaled by `rhs`, one after the other, and the scaled delegations.
pub open spec fn stats_updates(w: Seq<Write<Seq<char>, DelegationStats>>, dels: Seq<DelegationModel>, rhs: u128, height: u64) -> Result<(Seq<Write<Seq<char>, DelegationStats>>, Seq<DelegationModel>), Abort>
    decreases dels.len(),
{
    if dels.len() == 0 {
        Ok((w, seq![]))
    } else {
        match stats_updates(w, dels.drop_last(), rhs, height) {
            Err(a) => Err(a),
            Ok((w2, ds)) => {
                let d = dels.last();
                match latest(w2, d.delegated_to, no_bound()) {
                    None => Err(Abort::MissingValue),
                    Some(st) => if st.total_delegated < d.delegated {
                        Err(Abort::Overflow)
                    } else {
                        match spec_multiply_ratio(d.delegated, rhs, DECIMAL_FRACTIONAL) {
                            None => Err(Abort::Overflow),
                            Some(nd) => if st.total_delegated - d.delegated + nd > u128::MAX {
                                Err(Abort::Overflow)
                            } else {
                                Ok((
                                    w2.push((d.delegated_to, height, Some(DelegationStats { total_delegated: (st.total_delegated - d.delegated + nd) as u128, ..st }))),
                                    ds.push(DelegationModel { delegated: nd, ..d }),
                                ))
                            },
                        }
                    },
                }
            },
        }
    }
}

/// Splits `list` into the locks that have ended before `now` and the others.
pub fn split_locks(list: &Vec<Vtoken>, now: u64) -> (r: (Vec<Vtoken>, Vec<Vtoken>))
    ensures
        r.0.deep_view() == unlocked_part(list.deep_view(), now),
        r.1.deep_view() == locked_part(list.deep_view(), now),
{
    let mut unlocked: Vec<Vtoken> = Vec::new();
    let mut remaining: Vec<Vtoken> = Vec::new();
    let mut i: usize = 0;
    while i < list.len()
        invariant
            i <= list.len(),
            unlocked.deep_view() == unlocked_part(list.deep_view().subrange(0, i as int), now),
            remaining.deep_view() == locked_part(list.deep_view().subrange(0, i as int), now),
        decreases list.len() - i,
    {
        proof {
            assert(list.deep_view().subrange(0, i + 1).drop_last() =~= list.deep_view().subrange(0, i as int));
        }
        let v = list[i].duplicate();
        let ghost vm = v@;
        if list[i].end_time.nanos < now {
            let ghost before = unlocked.deep_view();
            unlocked.push(v);
            proof {
                assert(unlocked.deep_view() =~= before.push(vm));
            }
        } else {
            let ghost before = remaining.deep_view();
            remaining.push(v);
            proof {
                assert(remaining.deep_view() =~= before.push(vm));
            }
        }
        i = i + 1;
    }
    proof {
        assert(list.deep_view().subrange(0, list.len() as int) =~= list.deep_view());
    }
    (unlocked, remaining)
}

/// Sum of the locked token amounts of `list`; `None` on overflow.
pub fn sum_tokens(list: &Vec<Vtoken>) -> (r: Option<u128>)
    ensures
        token_sum(list.deep_view()) <= u128::MAX ==> r == Some(token_sum(list.deep_view()) as u128),
        token_sum(list.deep_view()) > u128::MAX ==> r is None,
{
    let mut acc: u128 = 0;
    let mut i: usize = 0;
    while i < list.len()
        invariant
            i <= list.len(),
            acc == token_sum(list.deep_view().subrange(0, i as int)),
        decreases list.len() - i,
    {
        proof {
            assert(list.deep_view().subrange(0, i + 1).drop_last() =~= list.deep_view().subrange(0, i as int));
        }
        match acc.checked_add(list[i].token.amount) {
            Some(a) => acc = a,
            None => {
                proof {
                    lemma_token_prefix(list.deep_view(), i + 1);
                }
                return None;
            },
        }
        i = i + 1;
    }
    proof {
        assert(list.deep_view().subrange(0, list.len() as int) =~= list.deep_view());
    }
    Some(acc)
}

proof fn lemma_token_prefix(l: Seq<VtokenModel>, i: int)
    requires
        0 <= i <= l.len(),
    ensures
        token_sum(l.subrange(0, i)) <= token_sum(l),
    decreases l.len() - i,
{
    if i < l.len() {
        lemma_token_prefix(l, i + 1);
        assert(l.subrange(0, i + 1).drop_last() =~= l.subrange(0, i));
    } else {
        assert(l.subrange(0, i) =~= l);
    }
}

/// Scales each delegation of `dels` by `rhs` and updates the statistics of
/// the delegated addresses (see [`stats_updates`]). On failure the table
/// only holds further writes.
fn apply_stats_updates(table: &mut Table<String, DelegationStats>, dels: &Vec<Delegation>, rhs: u128, height: u64) -> (r: Result<Vec<Delegation>, Abort>)
    ensures
        match stats_updates(old(table).writes(), dels.deep_view(), rhs, height) {
            Ok((w, ds)) => r is Ok && final(table).writes() == w && r->Ok_0.deep_view() == ds,
            Err(a) => r == Err::<Vec<Delegation>, Abort>(a),
        },
        final(table).extends(old(table)),
{
    proof {
        assert(table.writes().subrange(0, table.writes().len() as int) =~= table.writes());
        assert(dels.deep_view().subrange(0, 0) =~= Seq::<DelegationModel>::empty());
    }
    let mut out: Vec<Delegation> = Vec::new();
    proof {
        assert(out.deep_view() =~= Seq::<DelegationModel>::empty());
    }
    let mut i: usize = 0;
    while i < dels.len()
        invariant
            i <= dels.len(),
            stats_updates(old(table).writes(), dels.deep_view().subrange(0, i as int), rhs, height) == Ok::<(Seq<Write<Seq<char>, DelegationStats>>, Seq<DelegationModel>), Abort>((table.writes(), out.deep_view())),
            table.extends(old(table)),
        decreases dels.len() - i,
    {
        proof {
            assert(dels.deep_view().subrange(0, i + 1).drop_last() =~= dels.deep_view().subrange(0, i as int));
        }
        let d = &dels[i];
        let st = match table.load(&d.delegated_to) {
            Some(s) => s,
            None => {
                proof {
                    lemma_stats_prefix(old(table).writes(), dels.deep_view(), rhs, height, i + 1);
                }
                return Err(Abort::MissingValue);
            },
        };
        if st.total_delegated < d.delegated {
            proof {
                lemma_stats_prefix(old(table).writes(), dels.deep_view(), rhs, height, i + 1);
            }
            return Err(Abort::Overflow);
        }
        let nd = match Decimal::raw(rhs).checked_mul_amount(d.delegated) {
            Some(n) => n,
            None => {
                proof {
                    lemma_stats_prefix(old(table).writes(), dels.deep_view(), rhs, height, i + 1);
                }
                return Err(Abort::Overflow);
            },
        };
        let total = match (st.total_delegated - d.delegated).checked_add(nd) {
            Some(t) => t,
            None => {
                proof {
                    lemma_stats_prefix(old(table).writes(), dels.deep_view(), rhs, height, i + 1);
                }
                return Err(Abort::Overflow);
            },
        };
        let ghost before = *table;
        table.save(d.delegated_to.clone(), DelegationStats { total_delegated: total, ..st }, height);
        proof {
            assert(table.writes().subrange(0, old(table).writes().len() as int) =~= old(table).writes()) by {
                assert(before.writes().subrange(0, old(table).writes().len() as int) =~= old(table).writes());
            }
        }
        let ghost out_before = out.deep_view();
        let nd_del = Delegation {
            delegated_to: d.delegated_to.clone(),
            delegated_at: d.delegated_at,
            delegation_end_at: d.delegation_end_at,
            delegated: nd,
        };
        let ghost ndm = nd_del@;
        out.push(nd_del);
        proof {
            assert(out.deep_view() =~= out_before.push(ndm));
        }
        i = i + 1;
    }
    proof {
        assert(dels.deep_view().subrange(0, dels.len() as int) =~= dels.deep_view());
    }
    Ok(out)
}

proof fn lemma_stats_prefix(w: Seq<Write<Seq<char>, DelegationStats>>, dels: Seq<DelegationModel>, rhs: u128, height: u64, i: int)
    requires
        0 <= i <= dels.len(),
        stats_updates(w, dels.subrange(0, i), rhs, height) is Err,
    ensures
        stats_updates(w, dels, rhs, height) == stats_updates(w, dels.subrange(0, i), rhs, height),
    decreases dels.len() - i,
{
    if i < dels.len() {
        assert(dels.subrange(0, i + 1).drop_last() =~= dels.subrange(0, i));
        lemma_stats_prefix(w, dels, rhs, height, i + 1);
    } else {
        assert(dels.subrange(0, i) =~= dels);
    }
}

/// What a withdrawal writes and pays.
pub struct WithdrawPlan {
    /// The new statistics writes and the sender's new delegations, when its
    /// delegations exceed its remaining voting power.
    pub delegation: Option<(Seq<Write<Seq<char>, DelegationStats>>, UserDelegationInfoModel)>,
    /// The locks that stay.
    pub remaining: Seq<VtokenModel>,
    /// The new total supply of the denomination.
    pub supply: TokenSupply,
    /// The amount paid out.
    pub amount: u128,
}

/// The effect of `info.sender` withdrawing its unlocked tokens of `denom`,
/// or why it cannot.
pub open spec fn spec_withdraw(store: &ContractStore, env: EnvModel, info: MessageInfoModel, denom: Seq<char>) -> Result<WithdrawPlan, ErrorModel> {
    if info.funds.len() != 0 {
        Err(ErrorModel::FundsNotAllowed)
    } else {
        match store.vtokens.get((info.sender, denom)) {
            None => Err(ErrorModel::NotFound("No tokens found for "@ + debug_text(denom))),
            Some(l) => if vtoken_power(l) > u128::MAX {
                Err(ErrorModel::Aborted(Abort::Overflow))
            } else {
                let unl = unlocked_part(l, env.time.nanos);
                let vp = vtoken_power(l);
                let vw = vtoken_power(unl);
                let amount = token_sum(unl);
                if unl.len() == 0 {
                    Err(ErrorModel::NotFound("No unlocked tokens found for "@ + debug_text(denom)))
                } else if amount > u128::MAX {
                    Err(ErrorModel::Aborted(Abort::Overflow))
                } else {
                    let del = store.delegated.get(info.sender);
                    let total_delegated = match del {
                        Some(d) => d.total_casted as int,
                        None => 0,
                    };
                    if total_delegated > vp - vw {
                        let d = del->Some_0;
                        let rhs = spec_multiply_ratio((vp - vw) as u128, DECIMAL_FRACTIONAL, d.total_casted);
                        if d.delegations.len() > 0 && rhs is None {
                            Err(ErrorModel::Aborted(Abort::Overflow))
                        } else {
                            let rhs_v = match rhs {
                                Some(x) => x,
                                None => 0,
                            };
                            match stats_updates(store.delegation_stats.writes(), d.delegations, rhs_v, env.height) {
                                Err(a) => Err(ErrorModel::Aborted(a)),
                                Ok((w, ds)) => if d.total_casted - vp - vw < 0 {
                                    Err(ErrorModel::Aborted(Abort::Overflow))
                                } else {
                                    match supply_change(store.supply.get(denom), vw as u128, amount as u128, false) {
                                        Err(e) => Err(e),
                                        Ok(s) => Ok(WithdrawPlan {
                                            delegation: Some((w, UserDelegationInfoModel {
                                                total_casted: (d.total_casted - vp - vw) as u128,
                                                delegations: ds,
                                            })),
                                            remaining: locked_part(l, env.time.nanos),
                                            supply: s,
                                            amount: amount as u128,
                                        }),
                                    }
                                },
                            }
                        }
                    } else {
                        match supply_change(store.supply.get(denom), vw as u128, amount as u128, false) {
                            Err(e) => Err(e),
                            Ok(s) => Ok(WithdrawPlan {
                                delegation: None,
                                remaining: locked_part(l, env.time.nanos),
                                supply: s,
                                amount: amount as u128,
                            }),
                        }
                    }
                }
            },
        }
    }
}

/// The outcome of `handle_withdraw` from `old` to `new` with answer `r`.
pub open spec fn withdraw_outcome(old: &ContractStore, new: &ContractStore, r: Result<Response, ContractError>, env: EnvModel, info: MessageInfoModel, denom: Seq<char>) -> bool {
    match spec_withdraw(old, env, info, denom) {
        Err(e) => r is Err && r->Err_0@ == e && ContractStore::agrees(new, old, Set::empty()),
        Ok(plan) => {
            &&& r is Ok
            &&& r->Ok_0@ == (ResponseModel {
                messages: seq![MsgModel::BankSend { to_address: info.sender, amount: seq![CoinModel { denom: denom, amount: plan.amount }] }],
                attributes: seq![("action"@, "Withdraw"@), ("from"@, info.sender)],
            })
            &&& match plan.delegation {
                Some((w, d)) => {
                    &&& new.delegation_stats.writes() == w
                    &&& new.delegated.writes() == old.delegated.writes().push((info.sender, env.height, Some(d)))
                },
                None => {
                    &&& new.delegation_stats.writes() == old.delegation_stats.writes()
                    &&& new.delegated.writes() == old.delegated.writes()
                },
            }
            &&& new.vtokens.writes() == old.vtokens.writes().push(((info.sender, denom), env.height,
                if plan.remaining.len() == 0 { None } else { Some(plan.remaining) }))
            &&& new.supply.writes() == old.supply.writes().push((denom, env.height, Some(plan.supply)))
            &&& ContractStore::agrees(new, old, set![Part::DelegationStats, Part::Delegated, Part::Vtokens, Part::Supply])
        },
    }
}

/// Handles the withdrawal of tokens after completion of locking period: all
/// the sender's locks of `denom` whose period has ended are removed, the
/// total supply shrinks accordingly and the locked tokens are sent back.
pub fn handle_withdraw(store: &mut ContractStore, env: &Env, info: &MessageInfo, denom: String) -> (r: Result<Response, ContractError>)
    ensures
        withdraw_outcome(old(store), final(store), r, env@, info@, denom@),
{
    if info.funds.len() != 0 {
        return Err(ContractError::FundsNotAllowed {});
    }
    let key = (info.sender.clone(), denom.clone());
    let list = match store.vtokens.load(&key) {
        Some(l) => l,
        None => {
            let mut msg = String::from_str("No tokens found for ");
            msg.append(debug_string(&denom).as_str());
            return Err(ContractError::NotFound { msg });
        },
    };
    let vote_power = match sum_vtokens(&list) {
        Some(p) => p,
        None => return Err(ContractError::aborted(Abort::Overflow)),
    };
    let now = env.block.time.nanos;
    let (unlocked, remaining) = split_locks(&list, now);
    proof {
        lemma_parts(list.deep_view(), now);
    }
    if unlocked.len() == 0 {
        let mut msg = String::from_str("No unlocked tokens found for ");
        msg.append(debug_string(&denom).as_str());
        return Err(ContractError::NotFound { msg });
    }
    let withdrawable = match sum_tokens(&unlocked) {
        Some(w) => w,
        None => return Err(ContractError::aborted(Abort::Overflow)),
    };
    let vwithdrawable = match sum_vtokens(&unlocked) {
        Some(w) => w,
        None => return Err(ContractError::aborted(Abort::Overflow)),
    };
    let delegation = store.delegated.load(&info.sender);
    let total_delegated: u128 = match &delegation {
        Some(d) => d.total_casted,
        None => 0,
    };
    let m = store.delegation_stats.mark();
    let new_delegation: Option<UserDelegationInfo> = if total_delegated > vote_power - vwithdrawable {
        let d = match delegation {
            Some(d) => d,
            None => return Err(ContractError::aborted(Abort::MissingValue)),
        };
        let rhs = Decimal::checked_from_ratio(vote_power - vwithdrawable, total_delegated);
        if d.delegations.len() > 0 && rhs.is_none() {
            return Err(ContractError::aborted(Abort::Overflow));
        }
        let rhs_v = match rhs {
            Some(x) => x.atomics,
            None => 0,
        };
        let dels = match apply_stats_updates(&mut store.delegation_stats, &d.delegations, rhs_v, env.block.height) {
            Ok(ds) => ds,
            Err(a) => {
                store.delegation_stats.rollback(m);
                return Err(ContractError::aborted(a));
            },
        };
        if d.total_casted < vote_power || d.total_casted - vote_power < vwithdrawable {
            store.delegation_stats.rollback(m);
            return Err(ContractError::aborted(Abort::Overflow));
        }
        Some(UserDelegationInfo { total_casted: d.total_casted - vote_power - vwithdrawable, delegations: dels })
    } else {
        proof {
            assert(store.delegation_stats.writes().subrange(0, m as int) =~= store.delegation_stats.writes());
        }
        None
    };
    assert(store.delegation_stats.writes().subrange(0, m as int) =~= old(store).delegation_stats.writes());
    let supply = match crate::contract::compute_supply(store, &denom, vwithdrawable, withdrawable, false) {
        Ok(s) => s,
        Err(e) => {
            store.delegation_stats.rollback(m);
            return Err(e);
        },
    };
    if let Some(nd) = new_delegation {
        store.delegated.save(info.sender.clone(), nd, env.block.height);
    }
    let ghost rem = remaining.deep_view();
    if remaining.len() == 0 {
        store.vtokens.remove(key, env.block.height);
    } else {
        store.vtokens.save(key, remaining, env.block.height);
    }
    store.supply.save(denom.clone(), supply, env.block.height);
    let mut amount: Vec<Coin> = Vec::new();
    amount.push(Coin { denom, amount: withdrawable });
    assert(amount.deep_view() =~= seq![CoinModel { denom: denom@, amount: withdrawable }]);
    let resp = Response::new().add_message(CosmosMsg::BankSend { to_address: info.sender.clone(), amount });
    let resp = resp.add_attribute_str("action", "Withdraw").add_attribute("from", info.sender.clone());
    proof {
        assert(resp@.messages =~= seq![MsgModel::BankSend { to_address: info@.sender, amount: seq![CoinModel { denom: denom@, amount: withdrawable }] }]);
        assert(resp@.attributes =~= seq![("action"@, "Withdraw"@), ("from"@, info@.sender)]);
    }
    Ok(resp)
}

} // verus!
