//! Transfer of the vtokens of one locking period to another owner.
use crate::env::{Env, EnvModel, MessageInfo, MessageInfoModel};
use crate::error::{missing, Abort, ContractError, ErrorModel, StdError};
use crate::model::Duplicate;
use crate::response::{attrs, Response};
use crate::state::{LockingPeriod, StateModel, TokenInfo, TokenInfoModel, Vtoken, VtokenModel};
use crate::store::{ContractStore, Part};
use crate::text::{debug_string, debug_text};
use vstd::prelude::*;

verus! {

/// The vtokens of `l` locked for `lp`, in their order.
pub open spec fn of_period(l: Seq<VtokenModel>, lp: LockingPeriod) -> Seq<VtokenModel>
    decreases l.len(),
{
    if l.len() == 0 {
        seq![]
    } else if l.last().period == lp {
        of_period(l.drop_last(), lp).push(l.last())
    } else {
        of_period(l.drop_last(), lp)
    }
}

/// The vtokens of `l` locked for another period than `lp`, in their order.
pub open spec fn not_of_period(l: Seq<VtokenModel>, lp: LockingPeriod) -> Seq<VtokenModel>
    decreases l.len(),
{
    if l.len() == 0 {
        seq![]
    } else if l.last().period == lp {
        not_of_period(l.drop_last(), lp)
    } else {
        not_of_period(l.drop_last(), lp).push(l.last())
    }
}

/// The name of a locking period, as its `Debug` format writes it.
pub open spec fn period_name(lp: LockingPeriod) -> Seq<char> {
    match lp {
        LockingPeriod::T1 => "T1"@,
        LockingPeriod::T2 => "T2"@,
    }
}

fn period_str(lp: LockingPeriod) -> (s: &'static str)
    ensures
        s@ == period_name(lp),
{
    match lp {
        LockingPeriod::T1 => "T1",
        LockingPeriod::T2 => "T2",
    }
}

/// Splits `list` into its vtokens locked for `lp` and the others.
fn split_by_period(list: &Vec<Vtoken>, lp: LockingPeriod) -> (r: (Vec<Vtoken>, Vec<Vtoken>))
    ensures
        r.0.deep_view() == of_period(list.deep_view(), lp),
        r.1.deep_view() == not_of_period(list.deep_view(), lp),
{
    let ghost l = list.deep_view();
    let mut moved: Vec<Vtoken> = Vec::new();
    let mut rest: Vec<Vtoken> = Vec::new();
    let mut i: usize = 0;
    assert(l.subrange(0, 0) =~= Seq::<VtokenModel>::empty());
    assert(moved.deep_view() =~= Seq::<VtokenModel>::empty());
    assert(rest.deep_view() =~= Seq::<VtokenModel>::empty());
    while i < list.len()
        invariant
            i <= list.len(),
            l == list.deep_view(),
            moved.deep_view() == of_period(l.subrange(0, i as int), lp),
            rest.deep_view() == not_of_period(l.subrange(0, i as int), lp),
        decreases list.len() - i,
    {
        proof {
            assert(l.subrange(0, i + 1).drop_last() =~= l.subrange(0, i as int));
        }
        assert(list[i as int]@ == l[i as int]);
        let v = list[i].duplicate();
        if list[i].period == lp {
            let ghost before = moved.deep_view();
            moved.push(v);
            proof {
                assert(moved.deep_view() =~= before.push(l[i as int]));
            }
        } else {
            let ghost before = rest.deep_view();
            rest.push(v);
            proof {
                assert(rest.deep_view() =~= before.push(l[i as int]));
            }
        }
        i = i + 1;
    }
    proof {
        assert(l.subrange(0, list.len() as int) =~= l);
    }
    (moved, rest)
}

/// What a transfer writes: the recipient's vtokens, the sender's remaining
/// ones, and for a recipient without NFT the state with one more NFT.
pub struct TransferPlan {
    pub recipient_list: Seq<VtokenModel>,
    pub sender_rest: Seq<VtokenModel>,
    pub new_nft: Option<StateModel>,
}

/// The effect of the sender transferring its vtokens of `denom` locked for
/// `lp` to `recipient`, or why it is refused; `check` is the chain's
/// validation of the recipient's address.
pub open spec fn spec_transfer(store: &ContractStore, info: MessageInfoModel, recipient: Seq<char>, check: Result<(), StdError>, lp: LockingPeriod, denom: Seq<char>) -> Result<TransferPlan, ErrorModel> {
    if info.funds.len() != 0 {
        Err(ErrorModel::FundsNotAllowed)
    } else {
        match check {
            Err(e) => Err(ErrorModel::Std(e@)),
            Ok(_) => match store.vtokens.get((info.sender, denom)) {
                None => Err(ErrorModel::NotFound("No tokens found for "@ + debug_text(denom))),
                Some(l) => if of_period(l, lp).len() == 0 {
                    Err(ErrorModel::NotFound("No tokens found for denom: "@ + debug_text(denom) + " and locking period: "@ + period_name(lp)))
                } else {
                    let rec = match store.vtokens.get((recipient, denom)) {
                        Some(r) => r,
                        None => seq![],
                    };
                    let plan = TransferPlan {
                        recipient_list: rec + of_period(l, lp),
                        sender_rest: not_of_period(l, lp),
                        new_nft: None,
                    };
                    if store.tokens.get(recipient) is Some {
                        Ok(plan)
                    } else {
                        match store.state.get() {
                            None => Err(missing("locking_contract::state::State")),
                            Some(st) => if st.num_tokens == u64::MAX {
                                Err(ErrorModel::Aborted(Abort::Overflow))
                            } else {
                                Ok(TransferPlan { new_nft: Some(StateModel { num_tokens: (st.num_tokens + 1) as u64, ..st }), ..plan })
                            },
                        }
                    }
                },
            },
        }
    }
}

/// The writes of a transfer planned as `p` from `old` to `new`.
pub open spec fn transferred(old: &ContractStore, new: &ContractStore, env: EnvModel, sender: Seq<char>, recipient: Seq<char>, denom: Seq<char>, p: TransferPlan) -> bool {
    &&& new.vtokens.writes() == old.vtokens.writes().push(((recipient, denom), env.height, Some(p.recipient_list))).push(
        ((sender, denom), env.height, if p.sender_rest.len() == 0 {
            None
        } else {
            Some(p.sender_rest)
        }),
    )
    &&& match p.new_nft {
        None => new.state.writes() == old.state.writes() && new.tokens.writes() == old.tokens.writes(),
        Some(st) => {
            &&& new.state.writes() == old.state.writes().push(((), 0, Some(st)))
            &&& new.tokens.writes() == old.tokens.writes().push(
                (recipient, 0, Some(TokenInfoModel { owner: recipient, token_id: st.num_tokens })),
            )
        },
    }
    &&& ContractStore::agrees(new, old, set![Part::Vtokens, Part::State, Part::Tokens])
}

/// The outcome of `handle_transfer` from `old` to `new` with answer `r`.
pub open spec fn transfer_outcome(
    old: &ContractStore,
    new: &ContractStore,
    r: Result<Response, ContractError>,
    env: EnvModel,
    info: MessageInfoModel,
    recipient: Seq<char>,
    recipient_check: Result<(), StdError>,
    locking_period: LockingPeriod,
    denom: Seq<char>,
) -> bool {
    match spec_transfer(old, info, recipient, recipient_check, locking_period, denom) {
        Err(e) => r is Err && r->Err_0@ == e && ContractStore::agrees(new, old, Set::empty()),
        Ok(p) => {
            &&& r is Ok
            &&& r->Ok_0@ == attrs(seq![("action"@, "transfer"@), ("from"@, info.sender), ("to"@, recipient)])
            &&& transferred(old, new, env, info.sender, recipient, denom, p)
        },
    }
}

/// The sender transfers its vtokens of `denom` locked for `locking_period`
/// to `recipient`, who gets an NFT if it has none; `recipient_check` is the
/// chain's validation of the recipient's address.
pub fn handle_transfer(
    store: &mut ContractStore,
    env: &Env,
    info: &MessageInfo,
    recipient: String,
    recipient_check: Result<(), StdError>,
    locking_period: LockingPeriod,
    denom: String,
) -> (r: Result<Response, ContractError>)
    ensures
        transfer_outcome(old(store), final(store), r, env@, info@, recipient@, recipient_check, locking_period, denom@),
{
    if info.funds.len() != 0 {
        return Err(ContractError::FundsNotAllowed {});
    }
    if let Err(e) = recipient_check {
        return Err(ContractError::Std(e));
    }
    let sender_vtokens = match store.vtokens.load(&(info.sender.clone(), denom.clone())) {
        Some(v) => v,
        None => {
            let mut msg = String::from_str("No tokens found for ");
            let d = debug_string(&denom);
            msg.append(d.as_str());
            return Err(ContractError::NotFound { msg });
        },
    };
    let (moved, rest) = split_by_period(&sender_vtokens, locking_period);
    if moved.len() == 0 {
        let mut msg = String::from_str("No tokens found for denom: ");
        let d = debug_string(&denom);
        msg.append(d.as_str());
        msg.append(" and locking period: ");
        msg.append(period_str(locking_period));
        return Err(ContractError::NotFound { msg });
    }
    let mut recipient_list = match store.vtokens.load(&(recipient.clone(), denom.clone())) {
        Some(v) => v,
        None => Vec::new(),
    };
    proof {
        if store.vtokens.get((recipient@, denom@)) is None {
            assert(recipient_list.deep_view() =~= Seq::<VtokenModel>::empty());
        }
    }
    let ghost rec0 = recipient_list.deep_view();
    let mut i: usize = 0;
    while i < moved.len()
        invariant
            i <= moved.len(),
            recipient_list.deep_view() == rec0 + moved.deep_view().subrange(0, i as int),
        decreases moved.len() - i,
    {
        let ghost before = recipient_list.deep_view();
        recipient_list.push(moved[i].duplicate());
        proof {
            assert(recipient_list.deep_view() =~= before.push(moved.deep_view()[i as int]));
            assert(moved.deep_view().subrange(0, i + 1) =~= moved.deep_view().subrange(0, i as int).push(moved.deep_view()[i as int]));
        }
        i = i + 1;
    }
    proof {
        assert(moved.deep_view().subrange(0, moved.len() as int) =~= moved.deep_view());
    }
    let new_state = match store.tokens.load(&recipient) {
        Some(_) => None,
        None => {
            let mut state = match store.state.load() {
                Some(s) => s,
                None => return Err(ContractError::not_found("locking_contract::state::State")),
            };
            if state.num_tokens == u64::MAX {
                return Err(ContractError::aborted(Abort::Overflow));
            }
            state.num_tokens = state.num_tokens + 1;
            Some(state)
        },
    };
    store.vtokens.save((recipient.clone(), denom.clone()), recipient_list, env.block.height);
    if rest.len() == 0 {
        store.vtokens.remove((info.sender.clone(), denom.clone()), env.block.height);
    } else {
        store.vtokens.save((info.sender.clone(), denom.clone()), rest, env.block.height);
    }
    match new_state {
        None => {},
        Some(state) => {
            let token_id = state.num_tokens;
            store.state.save(state);
            store.tokens.save(recipient.clone(), TokenInfo { owner: recipient.clone(), token_id }, 0);
        },
    }
    let resp = Response::new().add_attribute_str("action", "transfer").add_attribute("from", info.sender.clone()).add_attribute(
        "to",
        recipient,
    );
    proof {
        assert(resp@.attributes =~= seq![("action"@, "transfer"@), ("from"@, info@.sender), ("to"@, recipient@)]);
    }
    Ok(resp)
}

} // verus!
