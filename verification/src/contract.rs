//! Locking, withdrawing and transferring tokens, and the governance
//! operations on proposals: raising, voting, bribing, emission, rebase and
//! claiming rewards.
use crate::decimal::{spec_multiply_ratio, spec_plus_seconds, Decimal, Timestamp, DECIMAL_FRACTIONAL};
use crate::env::{Env, EnvModel, MessageInfo, MessageInfoModel};
use crate::error::{custom, missing, Abort, ContractError, ErrorModel, StdError};
use crate::model::Duplicate;
use crate::response::{Response, ResponseModel};
use crate::state::{
    Coin, CoinModel, LockingPeriod, PeriodWeight, Proposal, ProposalModel, State, StateModel, Status, TokenInfo,
    TokenInfoModel, TokenSupply, Vtoken, VtokenModel,
};
use crate::msg::InstantiateMsg;
use crate::store::{ContractStore, Part};
use crate::text::{dedup_seq, dedup_strings, sort_strings, text_sorted, u64_text, u64_to_string};
use vstd::prelude::*;

verus! {

/// Given the locking period, retrieves the `period` and `weight`.
pub fn get_period(state: &State, locking_period: LockingPeriod) -> (pw: PeriodWeight)
    ensures
        pw == period_of(state@, locking_period),
{
    match locking_period {
        LockingPeriod::T1 => state.t1,
        LockingPeriod::T2 => state.t2,
    }
}

/// The period and weight of a locking period.
pub open spec fn period_of(state: StateModel, lp: LockingPeriod) -> PeriodWeight {
    match lp {
        LockingPeriod::T1 => state.t1,
        LockingPeriod::T2 => state.t2,
    }
}

/// The supply after adding (`add`) or taking away vtokens and tokens, or why
/// that cannot be done.
pub open spec fn supply_change(cur: Option<TokenSupply>, vquantity: u128, quantity: u128, add: bool) -> Result<TokenSupply, ErrorModel> {
    if cur is None && !add {
        Err(ErrorModel::NotFound("vTokens don't exist for the given denom"@))
    } else {
        let s = match cur {
            Some(s) => s,
            None => TokenSupply { token: 0, vtoken: 0 },
        };
        if add {
            if s.vtoken + vquantity > u128::MAX || s.token + quantity > u128::MAX {
                Err(ErrorModel::Aborted(Abort::Overflow))
            } else {
                Ok(TokenSupply { token: (s.token + quantity) as u128, vtoken: (s.vtoken + vquantity) as u128 })
            }
        } else if s.vtoken < vquantity {
            Err(ErrorModel::InsufficientFunds(s.vtoken))
        } else if s.token < quantity {
            Err(ErrorModel::InsufficientFunds(s.token))
        } else {
            Ok(TokenSupply { token: (s.token - quantity) as u128, vtoken: (s.vtoken - vquantity) as u128 })
        }
    }
}

/// Computes the change of the total supply of `denom` (see [`supply_change`]).
pub fn compute_supply(store: &ContractStore, denom: &String, vquantity: u128, quantity: u128, add: bool) -> (r: Result<TokenSupply, ContractError>)
    ensures
        match supply_change(store.supply.get(denom@), vquantity, quantity, add) {
            Ok(s) => r == Ok::<TokenSupply, ContractError>(s),
            Err(e) => r is Err && r->Err_0@ == e,
        },
{
    let denom_supply = store.supply.load(denom);
    if denom_supply.is_none() && !add {
        return Err(ContractError::NotFound { msg: String::from_str("vTokens don't exist for the given denom") });
    }
    let s = match denom_supply {
        Some(s) => s,
        None => TokenSupply { token: 0, vtoken: 0 },
    };
    if add {
        match (s.vtoken.checked_add(vquantity), s.token.checked_add(quantity)) {
            (Some(v), Some(t)) => Ok(TokenSupply { token: t, vtoken: v }),
            _ => Err(ContractError::aborted(Abort::Overflow)),
        }
    } else {
        if s.vtoken < vquantity {
            return Err(ContractError::InsufficientFunds { funds: s.vtoken });
        } else if s.token < quantity {
            return Err(ContractError::InsufficientFunds { funds: s.token });
        }
        Ok(TokenSupply { token: s.token - quantity, vtoken: s.vtoken - vquantity })
    }
}

/// Update the total supply of vtokens and of the corresponding locked tokens
/// of `denom`, at the current block.
pub fn update_denom_supply(store: &mut ContractStore, env: &Env, denom: &String, vquantity: u128, quantity: u128, add: bool) -> (r: Result<(), ContractError>)
    ensures
        match supply_change(old(store).supply.get(denom@), vquantity, quantity, add) {
            Ok(s) => {
                &&& r is Ok
                &&& final(store).supply.writes() == old(store).supply.writes().push((denom@, env.block.height, Some(s)))
                &&& ContractStore::agrees(final(store), old(store), set![Part::Supply])
            },
            Err(e) => {
                &&& r is Err && r->Err_0@ == e
                &&& ContractStore::agrees(final(store), old(store), Set::empty())
            },
        },
{
    let s = compute_supply(store, denom, vquantity, quantity, add)?;
    store.supply.save(denom.clone(), s, env.block.height);
    Ok(())
}

/// The vtoken created for `funds` locked for `lp`, or why it cannot be.
pub open spec fn spec_new_vtoken(env: EnvModel, funds: CoinModel, lp: LockingPeriod, pw: PeriodWeight) -> Result<VtokenModel, ErrorModel> {
    match spec_multiply_ratio(funds.amount, pw.weight.atomics, DECIMAL_FRACTIONAL) {
        None => Err(ErrorModel::Aborted(Abort::Overflow)),
        Some(amount) => match spec_plus_seconds(env.time, pw.period) {
            None => Err(ErrorModel::Aborted(Abort::Overflow)),
            Some(end) => Ok(VtokenModel {
                token: funds,
                vtoken: CoinModel { denom: "v"@ + funds.denom, amount },
                period: lp,
                start_time: env.time,
                end_time: end,
                status: Status::Locked,
            }),
        },
    }
}

/// Creates the vtoken for `funds` locked for `locking_period` with the given
/// period and weight.
fn make_vtoken(env: &Env, locking_period: LockingPeriod, pw: PeriodWeight, funds: &Coin) -> (r: Result<Vtoken, ContractError>)
    ensures
        match spec_new_vtoken(env@, funds@, locking_period, pw) {
            Ok(v) => r is Ok && r->Ok_0@ == v,
            Err(e) => r is Err && r->Err_0@ == e,
        },
{
    let mut vdenom = String::from_str("v");
    vdenom.append(funds.denom.as_str());
    let amount = match pw.weight.checked_mul_amount(funds.amount) {
        Some(a) => a,
        None => return Err(ContractError::aborted(Abort::Overflow)),
    };
    let end_time = match env.block.time.checked_plus_seconds(pw.period) {
        Some(t) => t,
        None => return Err(ContractError::aborted(Abort::Overflow)),
    };
    Ok(Vtoken {
        token: funds.duplicate(),
        vtoken: Coin { denom: vdenom, amount },
        period: locking_period,
        start_time: env.block.time,
        end_time,
        status: Status::Locked,
    })
}

/// What locking `funds` for `sender` does: the new vtoken, the new total
/// supply and, for a sender without NFT, the state with one more NFT.
pub struct LockPlan {
    pub vtoken: VtokenModel,
    pub supply: TokenSupply,
    pub new_nft: Option<StateModel>,
}

/// The effect of locking `funds` for `lp` given the contract state `st`,
/// the current supply of the denomination and whether the owner holds an
/// NFT already, or why it fails.
pub open spec fn spec_lock_from(st: StateModel, cur_supply: Option<TokenSupply>, has_nft: bool, env: EnvModel, funds: CoinModel, lp: LockingPeriod) -> Result<LockPlan, ErrorModel> {
    if st.min_lock_amount > funds.amount {
        Err(custom("Lock amount less than minimum lock amount"))
    } else {
        match spec_multiply_ratio(funds.amount, period_of(st, lp).weight.atomics, DECIMAL_FRACTIONAL) {
            None => Err(ErrorModel::Aborted(Abort::Overflow)),
            Some(vamount) => match supply_change(cur_supply, vamount, funds.amount, true) {
                Err(e) => Err(e),
                Ok(supply) => match spec_new_vtoken(env, funds, lp, period_of(st, lp)) {
                    Err(e) => Err(e),
                    Ok(v) => if has_nft {
                        Ok(LockPlan { vtoken: v, supply, new_nft: None })
                    } else if st.num_tokens == u64::MAX {
                        Err(ErrorModel::Aborted(Abort::Overflow))
                    } else {
                        Ok(LockPlan {
                            vtoken: v,
                            supply,
                            new_nft: Some(StateModel { num_tokens: (st.num_tokens + 1) as u64, ..st }),
                        })
                    },
                },
            },
        }
    }
}

/// The effect of locking `funds` for `sender` for `lp`, or why it fails.
pub open spec fn spec_lock(store: &ContractStore, env: EnvModel, sender: Seq<char>, funds: CoinModel, lp: LockingPeriod) -> Result<LockPlan, ErrorModel> {
    match store.state.get() {
        None => Err(missing("locking_contract::state::State")),
        Some(st) => spec_lock_from(st, store.supply.get(funds.denom), store.tokens.get(sender) is Some, env, funds, lp),
    }
}

/// The contract state after a lock planned as `p` from state `st`.
pub open spec fn state_after(st: StateModel, p: LockPlan) -> StateModel {
    match p.new_nft {
        Some(s) => s,
        None => st,
    }
}

/// The vtokens of `key` once `v` is appended.
pub open spec fn appended_vtokens(store: &ContractStore, key: (Seq<char>, Seq<char>), v: VtokenModel) -> Seq<VtokenModel> {
    match store.vtokens.get(key) {
        Some(list) => list.push(v),
        None => seq![v],
    }
}

/// The writes of a lock planned as `p` from `old` to `new`: the supply, the
/// owner's vtokens and, for a new NFT, the state and the owner's NFT.
pub open spec fn lock_written(old: &ContractStore, new: &ContractStore, env: EnvModel, sender: Seq<char>, funds: CoinModel, p: LockPlan) -> bool {
    &&& new.supply.writes() == old.supply.writes().push((funds.denom, env.height, Some(p.supply)))
    &&& new.vtokens.writes() == old.vtokens.writes().push(
        ((sender, funds.denom), env.height, Some(appended_vtokens(old, (sender, funds.denom), p.vtoken))),
    )
    &&& match p.new_nft {
        None => new.state.writes() == old.state.writes() && new.tokens.writes() == old.tokens.writes(),
        Some(st) => {
            &&& new.state.writes() == old.state.writes().push(((), 0, Some(st)))
            &&& new.tokens.writes() == old.tokens.writes().push(
                (sender, 0, Some(TokenInfoModel { owner: sender, token_id: st.num_tokens })),
            )
        },
    }
}

/// The store after locking as planned.
pub open spec fn locked(old: &ContractStore, new: &ContractStore, env: EnvModel, sender: Seq<char>, funds: CoinModel, p: LockPlan) -> bool {
    &&& lock_written(old, new, env, sender, funds, p)
    &&& ContractStore::agrees(new, old, set![Part::Supply, Part::Vtokens, Part::State, Part::Tokens])
}

/// Locks `funds` for `sender` for `locking_period`: records a new vtoken,
/// increases the total supply and issues an NFT to a first-time owner.
pub fn lock_funds(store: &mut ContractStore, env: &Env, _app_id: u64, sender: &String, funds: &Coin, locking_period: LockingPeriod) -> (r: Result<(), ContractError>)
    ensures
        match spec_lock(old(store), env@, sender@, funds@, locking_period) {
            Ok(p) => r is Ok && locked(old(store), final(store), env@, sender@, funds@, p),
            Err(e) => r is Err && r->Err_0@ == e && ContractStore::agrees(final(store), old(store), Set::empty()),
        },
{
    let mut state = match store.state.load() {
        Some(s) => s,
        None => return Err(ContractError::not_found("locking_contract::state::State")),
    };
    if state.min_lock_amount > funds.amount {
        return Err(ContractError::custom("Lock amount less than minimum lock amount"));
    }
    let pw = get_period(&state, locking_period);
    let vamount = match pw.weight.checked_mul_amount(funds.amount) {
        Some(a) => a,
        None => return Err(ContractError::aborted(Abort::Overflow)),
    };
    let supply = compute_supply(store, &funds.denom, vamount, funds.amount, true)?;
    let new_vtoken = make_vtoken(env, locking_period, pw, funds)?;
    let nft = store.tokens.load(sender);
    let new_nft = match nft {
        Some(_) => false,
        None => {
            if state.num_tokens == u64::MAX {
                return Err(ContractError::aborted(Abort::Overflow));
            }
            state.num_tokens = state.num_tokens + 1;
            true
        },
    };
    store.supply.save(funds.denom.clone(), supply, env.block.height);
    if new_nft {
        let token_id = state.num_tokens;
        store.state.save(state);
        store.tokens.save(sender.clone(), TokenInfo { owner: sender.clone(), token_id }, 0);
    }
    let key = (sender.clone(), funds.denom.clone());
    let list = match store.vtokens.load(&key) {
        Some(val) => {
            let mut val = val;
            val.push(new_vtoken);
            val
        },
        None => {
            let mut val: Vec<Vtoken> = Vec::new();
            val.push(new_vtoken);
            val
        },
    };
    proof {
        assert(list.deep_view() =~= appended_vtokens(old(store), (sender@, funds@.denom), new_vtoken@));
    }
    store.vtokens.save(key, list, env.block.height);
    Ok(())
}

/// The owner of the tokens locked by a message: the recipient if one is
/// given, else the sender.
pub open spec fn lock_owner(info_sender: Seq<char>, recipient: Option<(String, Result<(), StdError>)>) -> Seq<char> {
    match recipient {
        Some(r) => r.0@,
        None => info_sender,
    }
}

/// Why a lock message is refused before the lock itself, if it is.
pub open spec fn lock_message_error(funds: Seq<CoinModel>, recipient: Option<(String, Result<(), StdError>)>) -> Option<ErrorModel> {
    if funds.len() == 0 {
        Some(ErrorModel::InsufficientFunds(0))
    } else if funds.len() > 1 {
        Some(custom("Multiple denominations are not supported as yet."))
    } else if funds[0].amount == 0 {
        Some(ErrorModel::InsufficientFunds(0))
    } else {
        match recipient {
            Some(r) => match r.1 {
                Err(e) => Some(ErrorModel::Std(e@)),
                Ok(_) => None,
            },
            None => None,
        }
    }
}

/// The outcome of `handle_lock_nft` from `old` to `new` with answer `r`.
pub open spec fn lock_outcome(old: &ContractStore, new: &ContractStore, r: Result<Response, ContractError>, env: EnvModel, info: MessageInfoModel, locking_period: LockingPeriod, recipient: Option<(String, Result<(), StdError>)>) -> bool {
    match lock_message_error(info.funds, recipient) {
        Some(e) => r is Err && r->Err_0@ == e && ContractStore::agrees(new, old, Set::empty()),
        None => match spec_lock(old, env, lock_owner(info.sender, recipient), info.funds[0], locking_period) {
            Ok(p) => {
                &&& r is Ok
                &&& r->Ok_0@ == crate::response::attrs(seq![("action"@, "lock"@), ("from"@, info.sender)])
                &&& locked(old, new, env, lock_owner(info.sender, recipient), info.funds[0], p)
            },
            Err(e) => r is Err && r->Err_0@ == e && ContractStore::agrees(new, old, Set::empty()),
        },
    }
}

/// Lock the sent tokens and create corresponding vtokens.
///
/// `recipient`, when given, is the address to lock for together with the
/// outcome of its validation by the chain.
pub fn handle_lock_nft(
    store: &mut ContractStore,
    env: &Env,
    info: &MessageInfo,
    app_id: u64,
    locking_period: LockingPeriod,
    recipient: Option<(String, Result<(), StdError>)>,
) -> (r: Result<Response, ContractError>)
    ensures
        lock_outcome(old(store), final(store), r, env@, info@, locking_period, recipient),
{
    if info.funds.len() == 0 {
        return Err(ContractError::InsufficientFunds { funds: 0 });
    } else if info.funds.len() > 1 {
        return Err(ContractError::custom("Multiple denominations are not supported as yet."));
    }
    if info.funds[0].amount == 0 {
        return Err(ContractError::InsufficientFunds { funds: 0 });
    }
    assert(info.funds[0]@ == info@.funds[0]);
    match recipient {
        Some((recipient_address, check)) => {
            if let Err(e) = check {
                return Err(ContractError::Std(e));
            }
            lock_funds(store, env, app_id, &recipient_address, &info.funds[0], locking_period)?;
        },
        None => {
            lock_funds(store, env, app_id, &info.sender, &info.funds[0], locking_period)?;
        },
    }
    let resp = Response::new().add_attribute_str("action", "lock").add_attribute("from", info.sender.clone());
    proof {
        assert(resp@.attributes =~= seq![("action"@, "lock"@), ("from"@, info@.sender)]);
    }
    Ok(resp)
}

/// The stored admin is `sender`.
pub open spec fn is_admin_spec(store: &ContractStore, sender: Seq<char>) -> bool {
    store.admin.get() == Some(sender)
}

/// Whether `sender` is the admin.
pub fn is_admin(store: &ContractStore, sender: &String) -> (b: bool)
    ensures
        b == is_admin_spec(store, sender@),
{
    match store.admin.load() {
        Some(a) => a == *sender,
        None => false,
    }
}

/// Fails with the admin error unless `sender` is the admin.
pub fn assert_admin(store: &ContractStore, sender: &String) -> (r: Result<(), ContractError>)
    ensures
        r is Ok <==> is_admin_spec(store, sender@),
        r is Err ==> r->Err_0@ == ErrorModel::NotAdmin,
{
    if is_admin(store, sender) {
        Ok(())
    } else {
        Err(ContractError::Admin(crate::error::AdminError::NotAdmin {}))
    }
}

/// The first failing check of an instantiate message, if one fails.
pub open spec fn instantiate_error(msg: &InstantiateMsg, address_check: Result<(), StdError>) -> Option<ErrorModel> {
    if address_check is Err {
        Some(ErrorModel::Std(address_check->Err_0@))
    } else if msg.foundation_percentage.atomics > DECIMAL_FRACTIONAL {
        Some(custom("Foundation Emission percentage cannot be greater than 100 %"))
    } else if msg.emission.rewards_pending == 0 {
        Some(custom("Pending rewards should not be zero %"))
    } else if msg.emission.distributed_rewards != 0 {
        Some(custom("Distributed rewards should be zero"))
    } else if msg.emission.emission_rate.atomics > DECIMAL_FRACTIONAL {
        Some(custom("Emission rate cannot be greater one"))
    } else {
        None
    }
}

/// `r` is `s` sorted, with repeated addresses kept once.
pub open spec fn sorted_unique_of(r: Seq<Seq<char>>, s: Seq<Seq<char>>) -> bool {
    exists|g: Seq<Seq<char>>|
        #![trigger dedup_seq(g)]
        g.to_multiset() == s.to_multiset() && text_sorted(g) && r == dedup_seq(g)
}

/// Sets up the contract: its parameters, the emission of the app, the
/// proposal count, the exchange app id and the admin.
///
/// `address_check` is the outcome of the chain's validation of the vesting
/// contract, the admin and the foundation addresses, in that order.
pub fn instantiate(store: &mut ContractStore, _env: &Env, info: &MessageInfo, msg: InstantiateMsg, address_check: Result<(), StdError>) -> (r: Result<Response, ContractError>)
    ensures
        match instantiate_error(&msg, address_check) {
            Some(e) => r is Err && r->Err_0@ == e && ContractStore::agrees(final(store), old(store), Set::empty()),
            None => {
                &&& r is Ok
                &&& r->Ok_0@ == crate::response::attrs(seq![("method"@, "instantiate"@), ("owner"@, info@.sender)])
                &&& final(store).state.writes().len() == old(store).state.writes().len() + 1
                &&& final(store).state.writes().drop_last() == old(store).state.writes()
                &&& final(store).state.get() matches Some(st) && {
                    &&& st.t1 == msg.t1
                    &&& st.t2 == msg.t2
                    &&& st.num_tokens == 0
                    &&& st.vesting_contract == msg.vesting_contract@
                    &&& sorted_unique_of(st.foundation_addr, msg.foundation_addr.deep_view())
                    &&& st.foundation_percentage == msg.foundation_percentage
                    &&& st.surplus_asset_id == msg.surplus_asset_id
                    &&& st.voting_period == msg.voting_period
                    &&& st.min_lock_amount == msg.min_lock_amount
                }
                &&& final(store).emission.writes() == old(store).emission.writes().push((msg.emission.app_id, 0, Some(msg.emission)))
                &&& final(store).proposal_count.writes() == old(store).proposal_count.writes().push(((), 0, Some(0u64)))
                &&& final(store).cswap_id.writes() == old(store).cswap_id.writes().push(((), 0, Some(msg.cswap_id)))
                &&& final(store).admin.writes() == old(store).admin.writes().push(((), 0, Some(msg.admin@)))
                &&& ContractStore::agrees(final(store), old(store), set![Part::State, Part::Emission, Part::ProposalCount, Part::CswapId, Part::Admin])
            },
        },
{
    if let Err(e) = address_check {
        return Err(ContractError::Std(e));
    }
    let mut foundation_addr_unique = msg.foundation_addr.duplicate();
    sort_strings(&mut foundation_addr_unique);
    let ghost sorted = foundation_addr_unique.deep_view();
    dedup_strings(&mut foundation_addr_unique);
    let state = State {
        t1: msg.t1,
        t2: msg.t2,
        num_tokens: 0,
        vesting_contract: msg.vesting_contract.clone(),
        foundation_addr: foundation_addr_unique,
        foundation_percentage: msg.foundation_percentage,
        surplus_asset_id: msg.surplus_asset_id,
        voting_period: msg.voting_period,
        min_lock_amount: msg.min_lock_amount,
    };
    if msg.foundation_percentage.atomics > DECIMAL_FRACTIONAL {
        return Err(ContractError::custom("Foundation Emission percentage cannot be greater than 100 %"));
    }
    if msg.emission.rewards_pending == 0 {
        return Err(ContractError::custom("Pending rewards should not be zero %"));
    }
    if msg.emission.distributed_rewards != 0 {
        return Err(ContractError::custom("Distributed rewards should be zero"));
    }
    if msg.emission.emission_rate.atomics > DECIMAL_FRACTIONAL {
        return Err(ContractError::custom("Emission rate cannot be greater one"));
    }
    let ghost st = state@;
    store.state.save(state);
    proof {
        crate::table::lemma_latest_push(old(store).state.writes(), ((), 0, Some(st)), (), crate::table::no_bound());
        assert(store.state.writes().drop_last() =~= old(store).state.writes());
        assert(sorted_unique_of(st.foundation_addr, msg.foundation_addr.deep_view()) ) by {
            assert(st.foundation_addr == dedup_seq(sorted));
        }
    }
    store.emission.save(msg.emission.app_id, msg.emission, 0);
    store.proposal_count.save(0);
    store.cswap_id.save(msg.cswap_id);
    store.admin.save(msg.admin.clone());
    let resp = Response::new().add_attribute_str("method", "instantiate").add_attribute("owner", info.sender.clone());
    proof {
        assert(resp@.attributes =~= seq![("method"@, "instantiate"@), ("owner"@, info@.sender)]);
    }
    Ok(resp)
}

/// The proposal that `raise_proposal` stores.
pub open spec fn new_proposal(app_id: u64, env: EnvModel, end: Timestamp, ext_pairs: Seq<u64>) -> ProposalModel {
    ProposalModel {
        app_id,
        voting_start_time: env.time,
        voting_end_time: end,
        extended_pair: ext_pairs,
        emission_completed: false,
        rebase_completed: false,
        foundation_emission_completed: false,
        emission_distributed: 0,
        rebase_distributed: 0,
        foundation_distributed: 0,
        total_voted_weight: 0,
        total_surplus: CoinModel { denom: "nodenom"@, amount: 0 },
        height: env.height,
    }
}

/// The id and the proposal that raising a proposal creates, or why it fails.
pub open spec fn spec_raise(store: &ContractStore, env: EnvModel, info: MessageInfoModel, app_id: u64, ext_pairs: Seq<u64>) -> Result<(u64, ProposalModel), ErrorModel> {
    let current = match store.app_current_proposal.get(app_id) {
        Some(c) => c,
        None => 0,
    };
    if !is_admin_spec(store, info.sender) {
        Err(ErrorModel::NotAdmin)
    } else if info.funds.len() != 0 {
        Err(ErrorModel::FundsNotAllowed)
    } else if ext_pairs.len() == 0 {
        Err(custom("No extended pair to vote"))
    } else if current != 0 && store.proposal.get(current) is None {
        Err(missing("locking_contract::state::Proposal"))
    } else if current != 0 && store.proposal.get(current)->Some_0.voting_end_time.nanos > env.time.nanos {
        Err(custom("Previous proposal in voting state for the app"))
    } else {
        match store.state.get() {
            None => Err(missing("locking_contract::state::State")),
            Some(state) => match spec_plus_seconds(env.time, state.voting_period) {
                None => Err(ErrorModel::Aborted(Abort::Overflow)),
                Some(end) => {
                    let count = match store.proposal_count.get() {
                        Some(c) => c,
                        None => 0,
                    };
                    if count == u64::MAX {
                        Err(ErrorModel::Aborted(Abort::Overflow))
                    } else {
                        Ok(((count + 1) as u64, new_proposal(app_id, env, end, ext_pairs)))
                    }
                },
            },
        }
    }
}

/// The outcome of `raise_proposal` from `old` to `new` with answer `r`.
pub open spec fn raise_outcome(old: &ContractStore, new: &ContractStore, r: Result<Response, ContractError>, env: EnvModel, info: MessageInfoModel, app_id: u64, ext_pairs: Seq<u64>) -> bool {
    match spec_raise(old, env, info, app_id, ext_pairs) {
        Err(e) => r is Err && r->Err_0@ == e && ContractStore::agrees(new, old, Set::empty()),
        Ok((id, p)) => {
            &&& r is Ok
            &&& r->Ok_0@ == crate::response::attrs(seq![("method"@, "proposal_raised"@), ("proposal_id"@, u64_text(id))])
            &&& new.proposal_count.writes() == old.proposal_count.writes().push(((), 0, Some(id)))
            &&& new.app_current_proposal.writes() == old.app_current_proposal.writes().push((app_id, 0, Some(id)))
            &&& new.proposal.writes() == old.proposal.writes().push((id, 0, Some(p)))
            &&& ContractStore::agrees(new, old, set![Part::ProposalCount, Part::AppCurrentProposal, Part::Proposal])
        },
    }
}

/// Raises a new proposal for `app_id` on `ext_pairs`, open for voting during
/// the voting period. Only the admin may; no proposal of the app may be in
/// its voting period.
pub fn raise_proposal(store: &mut ContractStore, env: &Env, info: &MessageInfo, app_id: u64, ext_pairs: Vec<u64>) -> (r: Result<Response, ContractError>)
    ensures
        raise_outcome(old(store), final(store), r, env@, info@, app_id, ext_pairs@),
{
    assert_admin(store, &info.sender)?;
    if info.funds.len() != 0 {
        return Err(ContractError::FundsNotAllowed {});
    }
    if ext_pairs.len() == 0 {
        return Err(ContractError::custom("No extended pair to vote"));
    }
    let current_app_proposal = match store.app_current_proposal.load(&app_id) {
        Some(c) => c,
        None => 0,
    };
    if current_app_proposal != 0 {
        let proposal = match store.proposal.load(&current_app_proposal) {
            Some(p) => p,
            None => return Err(ContractError::not_found("locking_contract::state::Proposal")),
        };
        if proposal.voting_end_time.nanos > env.block.time.nanos {
            return Err(ContractError::custom("Previous proposal in voting state for the app"));
        }
    }
    let state = match store.state.load() {
        Some(s) => s,
        None => return Err(ContractError::not_found("locking_contract::state::State")),
    };
    let end = match env.block.time.checked_plus_seconds(state.voting_period) {
        Some(t) => t,
        None => return Err(ContractError::aborted(Abort::Overflow)),
    };
    let count = match store.proposal_count.load() {
        Some(c) => c,
        None => 0,
    };
    if count == u64::MAX {
        return Err(ContractError::aborted(Abort::Overflow));
    }
    let current_proposal = count + 1;
    let proposal = Proposal {
        app_id,
        voting_start_time: env.block.time,
        voting_end_time: end,
        extended_pair: ext_pairs,
        emission_completed: false,
        rebase_completed: false,
        foundation_emission_completed: false,
        emission_distributed: 0,
        rebase_distributed: 0,
        foundation_distributed: 0,
        total_voted_weight: 0,
        total_surplus: Coin::new(0, "nodenom"),
        height: env.block.height,
    };
    store.proposal_count.save(current_proposal);
    store.app_current_proposal.save(app_id, current_proposal, 0);
    store.proposal.save(current_proposal, proposal, 0);
    let resp = Response::new().add_attribute_str("method", "proposal_raised").add_attribute("proposal_id", u64_to_string(current_proposal));
    proof {
        assert(resp@.attributes =~= seq![("method"@, "proposal_raised"@), ("proposal_id"@, u64_text(current_proposal))]);
    }
    Ok(resp)
}

/// Some element occurs twice in `s`.
pub open spec fn has_duplicates(s: Seq<u64>) -> bool {
    exists|i: int, j: int| 0 <= i < j < s.len() && s[i] == s[j]
}

/// Whether some element of `vec` occurs more than once.
pub fn has_duplicate_elements(vec: &Vec<u64>) -> (b: bool)
    ensures
        b == has_duplicates(vec@),
{
    broadcast use vstd::std_specs::hash::group_hash_axioms;
    let mut seen_elements: std::collections::HashSet<u64> = std::collections::HashSet::new();
    let mut i: usize = 0;
    while i < vec.len()
        invariant
            i <= vec.len(),
            forall|x: u64| #[trigger] seen_elements@.contains(x) <==> exists|k: int| 0 <= k < i && vec@[k] == x,
            forall|p: int, q: int| 0 <= p < q < i ==> #[trigger] vec@[p] != #[trigger] vec@[q],
        decreases vec.len() - i,
    {
        let element = vec[i];
        if seen_elements.contains(&element) {
            proof {
                let k = choose|k: int| 0 <= k < i && vec@[k] == element;
                assert(vec@[k] == vec@[i as int]);
            }
            return true;
        }
        seen_elements.insert(element);
        proof {
            assert forall|p: int, q: int| 0 <= p < q < i + 1 implies #[trigger] vec@[p] != #[trigger] vec@[q] by {
                if q == i && vec@[p] == vec@[q] {
                    assert(exists|k: int| 0 <= k < i && vec@[k] == element);
                }
            }
        }
        i = i + 1;
    }
    false
}

} // verus!
