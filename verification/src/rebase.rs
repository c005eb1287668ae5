//! Rebase: voters relock their share of the rebase of a proposal, and the
//! surplus share of a holder.
use crate::contract::{lock_funds, lock_written, spec_lock, spec_lock_from, state_after, LockPlan};
use crate::decimal::{spec_multiply_ratio, Decimal, DECIMAL_FRACTIONAL};
use crate::env::{Env, EnvModel, MessageInfo, MessageInfoModel};
use crate::error::{custom, missing, Abort, ContractError, ErrorModel, StdError};
use crate::response::{attrs, Response, ResponseModel};
use crate::rewards::{bribe_share, spec_bribe_share};
use crate::state::{Coin, CoinModel, LockingPeriod, TokenSupply, Vtoken, VtokenModel};
use crate::store::{ContractStore, Part};
use crate::table::lemma_latest_push;
use crate::voting::{sum_vtokens, vtoken_power};
use vstd::prelude::*;

verus! {

/// What the chain answers about the governance token of an app: its asset
/// id (from the app query) and its denomination (from the asset query).
pub struct GovTokenFacts {
    pub gov_token_id: Result<u64, StdError>,
    pub gov_token_denom: Result<String, StdError>,
}

/// The denomination of the governance token, or the chain's error.
pub open spec fn gov_denom(gov: &GovTokenFacts) -> Result<Seq<char>, ErrorModel> {
    match gov.gov_token_id {
        Err(e) => Err(ErrorModel::Std(e@)),
        Ok(_) => match gov.gov_token_denom {
            Err(e) => Err(ErrorModel::Std(e@)),
            Ok(d) => Ok(d@),
        },
    }
}

fn load_gov_denom(gov: &GovTokenFacts) -> (r: Result<String, ContractError>)
    ensures
        match gov_denom(gov) {
            Ok(d) => r is Ok && r->Ok_0@ == d,
            Err(e) => r is Err && r->Err_0@ == e,
        },
{
    match &gov.gov_token_id {
        Err(e) => return Err(ContractError::Std(e.copy())),
        Ok(_) => {},
    }
    match &gov.gov_token_denom {
        Err(e) => Err(ContractError::Std(e.copy())),
        Ok(d) => Ok(d.clone()),
    }
}

/// Sum of the amounts locked in `l` for the period `lp`.
pub open spec fn period_amount(l: Seq<VtokenModel>, lp: LockingPeriod) -> int
    decreases l.len(),
{
    if l.len() == 0 {
        0
    } else {
        period_amount(l.drop_last(), lp) + if l.last().period == lp {
            l.last().token.amount as int
        } else {
            0
        }
    }
}

proof fn lemma_period_amount_nonneg(l: Seq<VtokenModel>, lp: LockingPeriod)
    ensures
        0 <= period_amount(l, lp),
    decreases l.len(),
{
    if l.len() > 0 {
        lemma_period_amount_nonneg(l.drop_last(), lp);
    }
}

proof fn lemma_period_amount_grows(l: Seq<VtokenModel>, lp: LockingPeriod, i: int)
    requires
        0 <= i <= l.len(),
    ensures
        0 <= period_amount(l.subrange(0, i), lp) <= period_amount(l, lp),
    decreases l.len() - i,
{
    lemma_period_amount_nonneg(l.subrange(0, i), lp);
    if i < l.len() {
        lemma_period_amount_grows(l, lp, i + 1);
        assert(l.subrange(0, i + 1).drop_last() =~= l.subrange(0, i));
    } else {
        assert(l.subrange(0, i) =~= l);
    }
}

/// The amounts locked in `list` for each period; `None` when one does not
/// fit in an amount.
pub(crate) fn period_amounts(list: &Vec<Vtoken>) -> (r: Option<(u128, u128)>)
    ensures
        period_amount(list.deep_view(), LockingPeriod::T1) <= u128::MAX && period_amount(list.deep_view(), LockingPeriod::T2) <= u128::MAX
            ==> r == Some((period_amount(list.deep_view(), LockingPeriod::T1) as u128, period_amount(list.deep_view(), LockingPeriod::T2) as u128)),
        !(period_amount(list.deep_view(), LockingPeriod::T1) <= u128::MAX && period_amount(list.deep_view(), LockingPeriod::T2) <= u128::MAX)
            ==> r is None,
        period_amount(list.deep_view(), LockingPeriod::T1) >= 0,
        period_amount(list.deep_view(), LockingPeriod::T2) >= 0,
{
    proof {
        lemma_period_amount_nonneg(list.deep_view(), LockingPeriod::T1);
        lemma_period_amount_nonneg(list.deep_view(), LockingPeriod::T2);
    }
    let ghost l = list.deep_view();
    let mut t1: u128 = 0;
    let mut t2: u128 = 0;
    let mut i: usize = 0;
    while i < list.len()
        invariant
            i <= list.len(),
            l == list.deep_view(),
            t1 == period_amount(l.subrange(0, i as int), LockingPeriod::T1),
            t2 == period_amount(l.subrange(0, i as int), LockingPeriod::T2),
        decreases list.len() - i,
    {
        proof {
            assert(l.subrange(0, i + 1).drop_last() =~= l.subrange(0, i as int));
            lemma_period_amount_grows(l, LockingPeriod::T1, i + 1);
            lemma_period_amount_grows(l, LockingPeriod::T2, i + 1);
        }
        assert(list[i as int]@ == l[i as int]);
        match list[i].period {
            LockingPeriod::T1 => {
                t1 = match t1.checked_add(list[i].token.amount) {
                    Some(x) => x,
                    None => return None,
                };
            },
            LockingPeriod::T2 => {
                t2 = match t2.checked_add(list[i].token.amount) {
                    Some(x) => x,
                    None => return None,
                };
            },
        }
        i = i + 1;
    }
    proof {
        assert(l.subrange(0, list.len() as int) =~= l);
    }
    Some((t1, t2))
}

/// A holder's rebase for `locked` tokens: `locked * (distributed / total)`,
/// the ratio taken as a decimal.
pub open spec fn spec_rebase_amount(locked: u128, distributed: u128, total: u128) -> Result<u128, Abort> {
    spec_bribe_share(distributed, total, locked)
}

/// What a rebase does: the denomination relocked in, and the locks made for
/// each period (none where the share is zero).
pub struct RebasePlan {
    pub denom: Seq<char>,
    pub first: Option<LockPlan>,
    pub second: Option<LockPlan>,
}

/// The coin of `amount` in `denom`.
pub open spec fn coin_of(denom: Seq<char>, amount: u128) -> CoinModel {
    CoinModel { denom, amount }
}

/// The second lock of a rebase, after the first one (if any).
pub open spec fn second_lock(store: &ContractStore, env: EnvModel, sender: Seq<char>, denom: Seq<char>, first: Option<LockPlan>, amount: u128) -> Result<Option<LockPlan>, ErrorModel> {
    if amount == 0 {
        Ok(None)
    } else {
        let lock = match first {
            None => spec_lock(store, env, sender, coin_of(denom, amount), LockingPeriod::T2),
            Some(p1) => spec_lock_from(
                state_after(store.state.get()->Some_0, p1),
                Some(p1.supply),
                true,
                env,
                coin_of(denom, amount),
                LockingPeriod::T2,
            ),
        };
        match lock {
            Err(e) => Err(e),
            Ok(p) => Ok(Some(p)),
        }
    }
}

/// The effect of `sender` claiming its rebase of proposal `pid`: its tokens
/// locked in each period at the proposal's height earn their share of the
/// proposal's rebase, which is locked again for the same period.
pub open spec fn spec_rebase(store: &ContractStore, env: EnvModel, info: MessageInfoModel, pid: u64, gov: &GovTokenFacts) -> Result<RebasePlan, ErrorModel> {
    let sender = info.sender;
    if info.funds.len() != 0 {
        Err(ErrorModel::FundsNotAllowed)
    } else {
        match store.proposal.get(pid) {
            None => Err(missing("locking_contract::state::Proposal")),
            Some(p) => if !p.emission_completed {
                Err(custom("Emission for proposal not completed"))
            } else if store.rebase_claimed.get((sender, pid)) == Some(true) {
                Err(custom("Already claimed rebase"))
            } else {
                match gov_denom(gov) {
                    Err(e) => Err(e),
                    Ok(denom) => {
                        let l = match store.vtokens.get_at((sender, denom), p.height) {
                            Some(l) => l,
                            None => seq![],
                        };
                        if l.len() == 0 {
                            Err(custom("No locked tokens for users to claim rebase"))
                        } else {
                            match store.supply.get_at(denom, p.height) {
                                None => Err(ErrorModel::Aborted(Abort::MissingValue)),
                                Some(supply) => {
                                    let t1 = period_amount(l, LockingPeriod::T1);
                                    let t2 = period_amount(l, LockingPeriod::T2);
                                    if t1 > u128::MAX || t2 > u128::MAX {
                                        Err(ErrorModel::Aborted(Abort::Overflow))
                                    } else {
                                        match spec_rebase_amount(t1 as u128, p.rebase_distributed, supply.token) {
                                            Err(a) => Err(ErrorModel::Aborted(a)),
                                            Ok(a1) => {
                                                let first = if a1 == 0 {
                                                    Ok(None)
                                                } else {
                                                    match spec_lock(store, env, sender, coin_of(denom, a1), LockingPeriod::T1) {
                                                        Err(e) => Err(e),
                                                        Ok(p1) => Ok(Some(p1)),
                                                    }
                                                };
                                                match first {
                                                    Err(e) => Err(e),
                                                    Ok(first) => match spec_rebase_amount(t2 as u128, p.rebase_distributed, supply.token) {
                                                        Err(a) => Err(ErrorModel::Aborted(a)),
                                                        Ok(a2) => match second_lock(store, env, sender, denom, first, a2) {
                                                            Err(e) => Err(e),
                                                            Ok(second) => if a1 == 0 && a2 == 0 {
                                                                Err(custom("Claimable rebase ratio not met for the existing locks"))
                                                            } else {
                                                                Ok(RebasePlan { denom, first, second })
                                                            },
                                                        },
                                                    },
                                                }
                                            },
                                        }
                                    }
                                },
                            }
                        }
                    },
                }
            },
        }
    }
}

/// The parts written by locks hold the same writes in `a` and `b`.
pub open spec fn lock_parts_same(a: &ContractStore, b: &ContractStore) -> bool {
    &&& a.supply.writes() == b.supply.writes()
    &&& a.vtokens.writes() == b.vtokens.writes()
    &&& a.state.writes() == b.state.writes()
    &&& a.tokens.writes() == b.tokens.writes()
}

/// The locks of a rebase planned as `plan` lead from `old` to `new` through
/// the store `mid` between them.
pub open spec fn rebase_locks(old: &ContractStore, mid: &ContractStore, new: &ContractStore, env: EnvModel, sender: Seq<char>, plan: RebasePlan) -> bool {
    &&& match plan.first {
        None => lock_parts_same(mid, old),
        Some(p1) => lock_written(old, mid, env, sender, coin_of(plan.denom, p1.vtoken.token.amount), p1),
    }
    &&& match plan.second {
        None => lock_parts_same(new, mid),
        Some(p2) => lock_written(mid, new, env, sender, coin_of(plan.denom, p2.vtoken.token.amount), p2),
    }
}

/// A lock planned from `old` as `p1` leaves the store in the state from
/// which the next lock of the same owner and denomination is planned as
/// [`spec_lock_from`] says, with the owner holding an NFT.
proof fn lemma_lock_after(old: &ContractStore, mid: &ContractStore, env: EnvModel, sender: Seq<char>, f1: CoinModel, f2: CoinModel, p1: LockPlan, lp: LockingPeriod)
    requires
        spec_lock(old, env, sender, f1, LockingPeriod::T1) == Ok::<LockPlan, ErrorModel>(p1),
        lock_written(old, mid, env, sender, f1, p1),
        f2.denom == f1.denom,
    ensures
        spec_lock(mid, env, sender, f2, lp) == spec_lock_from(state_after(old.state.get()->Some_0, p1), Some(p1.supply), true, env, f2, lp),
{
    lemma_latest_push(old.supply.writes(), (f1.denom, env.height, Some(p1.supply)), f1.denom, crate::table::no_bound());
    match p1.new_nft {
        Some(st) => {
            lemma_latest_push(old.state.writes(), ((), 0, Some(st)), (), crate::table::no_bound());
            lemma_latest_push(
                old.tokens.writes(),
                (sender, 0, Some(crate::state::TokenInfoModel { owner: sender, token_id: st.num_tokens })),
                sender,
                crate::table::no_bound(),
            );
        },
        None => {},
    }
}

/// The outcome of `calculate_rebase_reward` from `old` to `new` with answer `r`.
pub open spec fn rebase_outcome(old: &ContractStore, new: &ContractStore, r: Result<Response, ContractError>, env: EnvModel, info: MessageInfoModel, proposal_id: u64, gov: &GovTokenFacts) -> bool {
    match spec_rebase(old, env, info, proposal_id, gov) {
        Err(e) => r is Err && r->Err_0@ == e && ContractStore::agrees(new, old, Set::empty()),
        Ok(plan) => {
            &&& r is Ok
            &&& r->Ok_0@ == attrs(seq![("method"@, "rebase all holders"@)])
            &&& exists|mid: ContractStore| #[trigger] rebase_locks(old, &mid, new, env, info.sender, plan)
            &&& new.rebase_claimed.writes() == old.rebase_claimed.writes().push(((info.sender, proposal_id), 0, Some(true)))
            &&& ContractStore::agrees(new, old, set![Part::Supply, Part::Vtokens, Part::State, Part::Tokens, Part::RebaseClaimed])
        },
    }
}

/// `sender` claims its rebase of proposal `proposal_id`, where `gov` is what
/// the chain answers about the governance token of the proposal's app.
pub fn calculate_rebase_reward(store: &mut ContractStore, env: &Env, info: &MessageInfo, proposal_id: u64, gov: &GovTokenFacts) -> (r: Result<Response, ContractError>)
    ensures
        rebase_outcome(old(store), final(store), r, env@, info@, proposal_id, gov),
{
    if info.funds.len() != 0 {
        return Err(ContractError::FundsNotAllowed {});
    }
    let proposal = match store.proposal.load(&proposal_id) {
        Some(p) => p,
        None => return Err(ContractError::not_found("locking_contract::state::Proposal")),
    };
    if !proposal.emission_completed {
        return Err(ContractError::custom("Emission for proposal not completed"));
    }
    let has_rebased = match store.rebase_claimed.load(&(info.sender.clone(), proposal_id)) {
        Some(b) => b,
        None => false,
    };
    if has_rebased {
        return Err(ContractError::custom("Already claimed rebase"));
    }
    let denom = load_gov_denom(gov)?;
    let vtokens = match store.vtokens.load_at_height(&(info.sender.clone(), denom.clone()), proposal.height) {
        Some(v) => v,
        None => Vec::new(),
    };
    proof {
        if store.vtokens.get_at((info@.sender, denom@), proposal.height) is None {
            assert(vtokens.deep_view() =~= Seq::<VtokenModel>::empty());
        }
    }
    if vtokens.len() == 0 {
        return Err(ContractError::custom("No locked tokens for users to claim rebase"));
    }
    let supply = match store.supply.load_at_height(&denom, proposal.height) {
        Some(s) => s,
        None => return Err(ContractError::aborted(Abort::MissingValue)),
    };
    let (t1, t2) = match period_amounts(&vtokens) {
        Some(p) => p,
        None => return Err(ContractError::aborted(Abort::Overflow)),
    };
    let a1 = match bribe_share(proposal.rebase_distributed, supply.token, t1) {
        Ok(a) => a,
        Err(a) => return Err(ContractError::aborted(a)),
    };
    let ghost s0 = *store;
    let m_supply = store.supply.mark();
    let m_vtokens = store.vtokens.mark();
    let m_state = store.state.table.mark();
    let m_tokens = store.tokens.mark();
    if a1 != 0 {
        let fund = Coin { denom: denom.clone(), amount: a1 };
        lock_funds(store, env, proposal.app_id, &info.sender, &fund, LockingPeriod::T1)?;
    }
    let ghost mid = *store;
    let ghost first: Option<LockPlan> = if a1 == 0 {
        None
    } else {
        Some(spec_lock(&s0, env@, info@.sender, CoinModel { denom: denom@, amount: a1 }, LockingPeriod::T1)->Ok_0)
    };
    proof {
        if a1 != 0 {
            assert(first->Some_0.vtoken.token.amount == a1);
        }
    }
    let a2 = match bribe_share(proposal.rebase_distributed, supply.token, t2) {
        Ok(a) => a,
        Err(a) => {
            store.supply.rollback(m_supply);
            store.vtokens.rollback(m_vtokens);
            store.state.table.rollback(m_state);
            store.tokens.rollback(m_tokens);
            proof {
                assert(store.supply.writes() =~= s0.supply.writes());
                assert(store.vtokens.writes() =~= s0.vtokens.writes());
                assert(store.state.writes() =~= s0.state.writes());
                assert(store.tokens.writes() =~= s0.tokens.writes());
            }
            return Err(ContractError::aborted(a));
        },
    };
    if a2 != 0 {
        let fund = Coin { denom: denom.clone(), amount: a2 };
        proof {
            if a1 != 0 {
                lemma_lock_after(&s0, &mid, env@, info@.sender, CoinModel { denom: denom@, amount: a1 }, fund@, first->Some_0, LockingPeriod::T2);
            }
        }
        match lock_funds(store, env, proposal.app_id, &info.sender, &fund, LockingPeriod::T2) {
            Ok(()) => {},
            Err(e) => {
                store.supply.rollback(m_supply);
                store.vtokens.rollback(m_vtokens);
                store.state.table.rollback(m_state);
                store.tokens.rollback(m_tokens);
                proof {
                    assert(store.supply.writes() =~= s0.supply.writes());
                    assert(store.vtokens.writes() =~= s0.vtokens.writes());
                    assert(store.state.writes() =~= s0.state.writes());
                    assert(store.tokens.writes() =~= s0.tokens.writes());
                }
                return Err(e);
            },
        }
    }
    if a1 == 0 && a2 == 0 {
        return Err(ContractError::custom("Claimable rebase ratio not met for the existing locks"));
    }
    let ghost before_mark = *store;
    store.rebase_claimed.save((info.sender.clone(), proposal_id), true, 0);
    proof {
        assert(rebase_locks(&s0, &mid, &before_mark, env@, info@.sender, spec_rebase(&s0, env@, info@, proposal_id, gov)->Ok_0));
        assert(rebase_locks(&s0, &mid, store, env@, info@.sender, spec_rebase(&s0, env@, info@, proposal_id, gov)->Ok_0));
    }
    let resp = Response::new().add_attribute_str("method", "rebase all holders");
    proof {
        assert(resp@.attributes =~= seq![("method"@, "rebase all holders"@)]);
    }
    Ok(resp)
}

/// A holder's surplus share on a proposal: the whole part of the ratio of
/// its vtokens `locked` to all vtokens `total`, times the `surplus`.
pub open spec fn spec_surplus_share(locked: u128, total: u128, surplus: u128) -> Result<u128, Abort> {
    match spec_multiply_ratio(locked, DECIMAL_FRACTIONAL, total) {
        None => if total == 0 {
            Err(Abort::DivideByZero)
        } else {
            Err(Abort::Overflow)
        },
        Some(ratio) => match spec_multiply_ratio(1, ratio, DECIMAL_FRACTIONAL) {
            None => Err(Abort::Overflow),
            Some(whole) => if whole * surplus > u128::MAX {
                Err(Abort::Overflow)
            } else {
                Ok((whole * surplus) as u128)
            },
        },
    }
}

fn surplus_share(locked: u128, total: u128, surplus: u128) -> (r: Result<u128, Abort>)
    ensures
        r == spec_surplus_share(locked, total, surplus),
{
    let ratio = match Decimal::new(locked).checked_div(Decimal::new(total)) {
        Some(r) => r,
        None => return if total == 0 {
            Err(Abort::DivideByZero)
        } else {
            Err(Abort::Overflow)
        },
    };
    let whole = match ratio.checked_mul_amount(1) {
        Some(w) => w,
        None => return Err(Abort::Overflow),
    };
    match whole.checked_mul(surplus) {
        Some(x) => Ok(x),
        None => Err(Abort::Overflow),
    }
}

/// The surplus `sender` can claim over the proposals `props` after
/// `max_claimed`: the denomination of the last surplus met (empty if none)
/// and the sum of the shares.
pub open spec fn surplus_over(store: &ContractStore, sender: Seq<char>, max_claimed: u64, props: Seq<u64>, gov: &GovTokenFacts) -> Result<(Seq<char>, u128), ErrorModel>
    decreases props.len(),
{
    if props.len() == 0 {
        Ok((seq![], 0))
    } else {
        match surplus_over(store, sender, max_claimed, props.drop_last(), gov) {
            Err(e) => Err(e),
            Ok((denom, total)) => {
                let pid = props.last();
                if pid <= max_claimed {
                    Ok((denom, total))
                } else {
                    match store.proposal.get(pid) {
                        None => Err(missing("locking_contract::state::Proposal")),
                        Some(p) => if p.total_surplus.denom == "nodenom"@ {
                            Ok((denom, total))
                        } else {
                            match gov_denom(gov) {
                                Err(e) => Err(e),
                                Ok(gd) => match store.vtokens.get_at((sender, gd), p.height) {
                                    None => Ok((p.total_surplus.denom, total)),
                                    Some(l) => match store.supply.get_at(gd, p.height) {
                                        None => Err(ErrorModel::Aborted(Abort::MissingValue)),
                                        Some(supply) => if vtoken_power(l) > u128::MAX {
                                            Err(ErrorModel::Aborted(Abort::Overflow))
                                        } else {
                                            match spec_surplus_share(vtoken_power(l) as u128, supply.vtoken, p.total_surplus.amount) {
                                                Err(a) => Err(ErrorModel::Aborted(a)),
                                                Ok(share) => if total + share > u128::MAX {
                                                    Err(ErrorModel::Aborted(Abort::Overflow))
                                                } else {
                                                    Ok((p.total_surplus.denom, (total + share) as u128))
                                                },
                                            }
                                        },
                                    },
                                },
                            }
                        },
                    }
                }
            },
        }
    }
}

proof fn lemma_surplus_prefix(store: &ContractStore, sender: Seq<char>, max_claimed: u64, props: Seq<u64>, gov: &GovTokenFacts, i: int)
    requires
        0 <= i <= props.len(),
        surplus_over(store, sender, max_claimed, props.subrange(0, i), gov) is Err,
    ensures
        surplus_over(store, sender, max_claimed, props, gov) == surplus_over(store, sender, max_claimed, props.subrange(0, i), gov),
    decreases props.len() - i,
{
    if i < props.len() {
        assert(props.subrange(0, i + 1).drop_last() =~= props.subrange(0, i));
        lemma_surplus_prefix(store, sender, max_claimed, props, gov, i + 1);
    } else {
        assert(props.subrange(0, i) =~= props);
    }
}

/// The surplus that the sender can claim over the proposals
/// `all_proposals` raised after `max_proposal_claimed` (see
/// [`surplus_over`]), where `gov` is what the chain answers about the
/// governance token of the app.
pub fn calculate_surplus_reward(
    store: &ContractStore,
    _env: &Env,
    info: &MessageInfo,
    max_proposal_claimed: u64,
    all_proposals: Vec<u64>,
    _app_id: u64,
    gov: &GovTokenFacts,
) -> (r: Result<Coin, ContractError>)
    ensures
        match surplus_over(store, info@.sender, max_proposal_claimed, all_proposals@, gov) {
            Ok((denom, total)) => r is Ok && r->Ok_0@ == (CoinModel { denom, amount: total }),
            Err(e) => r is Err && r->Err_0@ == e,
        },
{
    let mut asset_denom = String::new();
    let mut total_claimable: u128 = 0;
    let mut i: usize = 0;
    while i < all_proposals.len()
        invariant
            i <= all_proposals.len(),
            surplus_over(store, info@.sender, max_proposal_claimed, all_proposals@.subrange(0, i as int), gov)
                == Ok::<(Seq<char>, u128), ErrorModel>((asset_denom@, total_claimable)),
        decreases all_proposals.len() - i,
    {
        proof {
            assert(all_proposals@.subrange(0, i + 1).drop_last() =~= all_proposals@.subrange(0, i as int));
        }
        let pid = all_proposals[i];
        if pid > max_proposal_claimed {
            let proposal = match store.proposal.load(&pid) {
                Some(p) => p,
                None => {
                    proof {
                        lemma_surplus_prefix(store, info@.sender, max_proposal_claimed, all_proposals@, gov, i + 1);
                    }
                    return Err(ContractError::not_found("locking_contract::state::Proposal"));
                },
            };
            let nodenom = String::from_str("nodenom");
            if proposal.total_surplus.denom != nodenom {
                let surplus = proposal.total_surplus.amount;
                asset_denom = proposal.total_surplus.denom.clone();
                let gd = match load_gov_denom(gov) {
                    Ok(d) => d,
                    Err(e) => {
                        proof {
                            lemma_surplus_prefix(store, info@.sender, max_proposal_claimed, all_proposals@, gov, i + 1);
                        }
                        return Err(e);
                    },
                };
                match store.vtokens.load_at_height(&(info.sender.clone(), gd.clone()), proposal.height) {
                    None => {},
                    Some(vtokens) => {
                        let supply = match store.supply.load_at_height(&gd, proposal.height) {
                            Some(s) => s,
                            None => {
                                proof {
                                    lemma_surplus_prefix(store, info@.sender, max_proposal_claimed, all_proposals@, gov, i + 1);
                                }
                                return Err(ContractError::aborted(Abort::MissingValue));
                            },
                        };
                        let locked = match sum_vtokens(&vtokens) {
                            Some(x) => x,
                            None => {
                                proof {
                                    lemma_surplus_prefix(store, info@.sender, max_proposal_claimed, all_proposals@, gov, i + 1);
                                }
                                return Err(ContractError::aborted(Abort::Overflow));
                            },
                        };
                        let share = match surplus_share(locked, supply.vtoken, surplus) {
                            Ok(x) => x,
                            Err(a) => {
                                proof {
                                    lemma_surplus_prefix(store, info@.sender, max_proposal_claimed, all_proposals@, gov, i + 1);
                                }
                                return Err(ContractError::aborted(a));
                            },
                        };
                        total_claimable = match total_claimable.checked_add(share) {
                            Some(t) => t,
                            None => {
                                proof {
                                    lemma_surplus_prefix(store, info@.sender, max_proposal_claimed, all_proposals@, gov, i + 1);
                                }
                                return Err(ContractError::aborted(Abort::Overflow));
                            },
                        };
                    },
                }
            }
        }
        i = i + 1;
    }
    proof {
        assert(all_proposals@.subrange(0, all_proposals.len() as int) =~= all_proposals@);
    }
    Ok(Coin { denom: asset_denom, amount: total_claimable })
}

} // verus!
