//! Operations of the chain's governance on the contract's parameters, and
//! migration of the contract.
use crate::contract::sorted_unique_of;
use crate::decimal::{Decimal, DECIMAL_FRACTIONAL};
use crate::env::{Env, EnvModel};
use crate::error::{custom, missing, ContractError, ErrorModel, StdError, StdErrorModel};
use crate::model::Duplicate;
use crate::msg::{MigrateMsg, SudoMsg};
use crate::response::{attrs, Response};
use crate::state::{DelegationInfo, DelegationInfoModel, Emission, StateModel};
use crate::store::{ContractStore, Part};
use crate::text::{dedup_strings, sort_strings, text_lt};
use vstd::std_specs::iter::IteratorSpec;
use vstd::prelude::*;

verus! {

/// Why the parameters of a delegated address are refused, if they are.
pub open spec fn delegation_info_error(di: DelegationInfoModel) -> Option<ErrorModel> {
    if di.protocol_fees.atomics > DECIMAL_FRACTIONAL {
        Some(custom("Protocol fees percentage cannot be less than 0 % or greater than 100%"))
    } else if di.delegator_fees.atomics > DECIMAL_FRACTIONAL {
        Some(custom("Delegator fees percentage cannot be less than 0 % or greater than 100%"))
    } else if di.delegated_address == di.fee_collector_address {
        Some(custom("Delegator and fee collector address cannot be same"))
    } else {
        None
    }
}

fn check_delegation_info(di: &DelegationInfo) -> (r: Result<(), ContractError>)
    ensures
        match delegation_info_error(di@) {
            Some(e) => r is Err && r->Err_0@ == e,
            None => r is Ok,
        },
{
    if di.protocol_fees.atomics > DECIMAL_FRACTIONAL {
        return Err(ContractError::custom("Protocol fees percentage cannot be less than 0 % or greater than 100%"));
    }
    if di.delegator_fees.atomics > DECIMAL_FRACTIONAL {
        return Err(ContractError::custom("Delegator fees percentage cannot be less than 0 % or greater than 100%"));
    }
    if di.delegated_address == di.fee_collector_address {
        return Err(ContractError::custom("Delegator and fee collector address cannot be same"));
    }
    Ok(())
}

/// The store after the only write of `st` to the state.
pub open spec fn state_set(old: &ContractStore, new: &ContractStore, st: StateModel) -> bool {
    &&& new.state.writes() == old.state.writes().push(((), 0, Some(st)))
    &&& ContractStore::agrees(new, old, set![Part::State])
}

/// The outcome of the governance message `msg` from `old` to `new` with
/// answer `r`; `check` is the chain's validation of the addresses the
/// message carries.
pub open spec fn sudo_outcome(old: &ContractStore, new: &ContractStore, r: Result<Response, ContractError>, env: EnvModel, msg: &SudoMsg, check: Result<(), StdError>) -> bool {
    let unchanged = ContractStore::agrees(new, old, Set::empty());
    let ok = r is Ok && r->Ok_0@ == attrs(seq![]);
    match msg {
        SudoMsg::UpdateVestingContract { address } => match old.state.get() {
            None => r is Err && r->Err_0@ == missing("locking_contract::state::State") && unchanged,
            Some(st) => match check {
                Err(e) => r is Err && r->Err_0@ == ErrorModel::Std(e@) && unchanged,
                Ok(_) => ok && state_set(old, new, StateModel { vesting_contract: address@, ..st }),
            },
        },
        SudoMsg::UpdateEmissionRate { emission_rate, app_id } => match old.emission.get(*app_id) {
            None => r is Err && r->Err_0@ == missing("locking_contract::state::Emission") && unchanged,
            Some(em) => if emission_rate.atomics > DECIMAL_FRACTIONAL {
                r is Err && r->Err_0@ == custom("Emission rate cannot be greater one") && unchanged
            } else {
                &&& ok
                &&& new.emission.writes() == old.emission.writes().push((em.app_id, 0, Some(Emission { emission_rate: *emission_rate, ..em })))
                &&& ContractStore::agrees(new, old, set![Part::Emission])
            },
        },
        SudoMsg::UpdateFoundationInfo { addresses, foundation_percentage } => if foundation_percentage.atomics > DECIMAL_FRACTIONAL {
            r is Err && r->Err_0@ == custom("Foundation Emission percentage cannot be greater than 100 %") && unchanged
        } else {
            match old.state.get() {
                None => r is Err && r->Err_0@ == missing("locking_contract::state::State") && unchanged,
                Some(st) => match check {
                    Err(e) => r is Err && r->Err_0@ == ErrorModel::Std(e@) && unchanged,
                    Ok(_) => ok && exists|fa: Seq<Seq<char>>|
                        #![trigger sorted_unique_of(fa, addresses.deep_view())]
                        sorted_unique_of(fa, addresses.deep_view()) && state_set(
                            old,
                            new,
                            StateModel { foundation_addr: fa, foundation_percentage: *foundation_percentage, ..st },
                        ),
                },
            }
        },
        SudoMsg::UpdateLockingPeriod { t1, t2 } => match old.state.get() {
            None => r is Err && r->Err_0@ == missing("locking_contract::state::State") && unchanged,
            Some(st) => ok && state_set(old, new, StateModel { t1: *t1, t2: *t2, ..st }),
        },
        SudoMsg::UpdateAdmin { admin } => match check {
            Err(e) => r is Err && r->Err_0@ == ErrorModel::Std(e@) && unchanged,
            Ok(_) => {
                &&& ok
                &&& new.admin.writes() == old.admin.writes().push(((), 0, Some(admin@)))
                &&& ContractStore::agrees(new, old, set![Part::Admin])
            },
        },
        SudoMsg::UpdateVotingPeriod { voting_period } => match old.state.get() {
            None => r is Err && r->Err_0@ == missing("locking_contract::state::State") && unchanged,
            Some(st) => ok && state_set(old, new, StateModel { voting_period: *voting_period, ..st }),
        },
        SudoMsg::AddNewDelegation { delegation_info } => if old.delegation_info.get(delegation_info.delegated_address@) is Some {
            r is Err && r->Err_0@ == custom("Delegation already exists") && unchanged
        } else {
            match delegation_info_error(delegation_info@) {
                Some(e) => r is Err && r->Err_0@ == e && unchanged,
                None => {
                    &&& ok
                    &&& new.delegation_info.writes() == old.delegation_info.writes().push(
                        (delegation_info.delegated_address@, env.height, Some(delegation_info@)),
                    )
                    &&& ContractStore::agrees(new, old, set![Part::DelegationInfo])
                },
            }
        },
        SudoMsg::UpdateExistingDelegation { delegation_info } => if old.delegation_info.get(delegation_info.delegated_address@) is None {
            r is Err && r->Err_0@ == custom("Delegation does not exists") && unchanged
        } else {
            match delegation_info_error(delegation_info@) {
                Some(e) => r is Err && r->Err_0@ == e && unchanged,
                None => {
                    &&& ok
                    &&& new.delegation_info.writes() == old.delegation_info.writes().push(
                        (delegation_info.delegated_address@, env.height, Some(delegation_info@)),
                    )
                    &&& ContractStore::agrees(new, old, set![Part::DelegationInfo])
                },
            }
        },
    }
}

/// Applies a governance message: updates of the vesting contract, of the
/// emission rate of an app, of the foundation addresses and percentage, of
/// the locking periods, of the admin, of the voting period, and addition or
/// update of a delegated address. `address_check` is the chain's validation
/// of the addresses the message carries.
pub fn sudo(store: &mut ContractStore, env: &Env, msg: SudoMsg, address_check: Result<(), StdError>) -> (r: Result<Response, ContractError>)
    ensures
        sudo_outcome(old(store), final(store), r, env@, &msg, address_check),
{
    let ghost m = msg;
    match msg {
        SudoMsg::UpdateVestingContract { address } => {
            let mut state = match store.state.load() {
                Some(s) => s,
                None => return Err(ContractError::not_found("locking_contract::state::State")),
            };
            if let Err(e) = address_check {
                return Err(ContractError::Std(e));
            }
            state.vesting_contract = address;
            store.state.save(state);
        },
        SudoMsg::UpdateEmissionRate { emission_rate, app_id } => {
            let mut emission = match store.emission.load(&app_id) {
                Some(e) => e,
                None => return Err(ContractError::not_found("locking_contract::state::Emission")),
            };
            if emission_rate.atomics > DECIMAL_FRACTIONAL {
                return Err(ContractError::custom("Emission rate cannot be greater one"));
            }
            emission.emission_rate = emission_rate;
            store.emission.save(emission.app_id, emission, 0);
        },
        SudoMsg::UpdateFoundationInfo { addresses, foundation_percentage } => {
            if foundation_percentage.atomics > DECIMAL_FRACTIONAL {
                return Err(ContractError::custom("Foundation Emission percentage cannot be greater than 100 %"));
            }
            let mut state = match store.state.load() {
                Some(s) => s,
                None => return Err(ContractError::not_found("locking_contract::state::State")),
            };
            if let Err(e) = address_check {
                return Err(ContractError::Std(e));
            }
            let ghost given = addresses.deep_view();
            let mut unique = addresses;
            sort_strings(&mut unique);
            let ghost sorted = unique.deep_view();
            dedup_strings(&mut unique);
            state.foundation_addr = unique;
            state.foundation_percentage = foundation_percentage;
            let ghost st = state@;
            store.state.save(state);
            proof {
                assert(sorted_unique_of(st.foundation_addr, given));
            }
        },
        SudoMsg::UpdateLockingPeriod { t1, t2 } => {
            let mut state = match store.state.load() {
                Some(s) => s,
                None => return Err(ContractError::not_found("locking_contract::state::State")),
            };
            state.t1 = t1;
            state.t2 = t2;
            store.state.save(state);
        },
        SudoMsg::UpdateAdmin { admin } => {
            if let Err(e) = address_check {
                return Err(ContractError::Std(e));
            }
            store.admin.save(admin);
        },
        SudoMsg::UpdateVotingPeriod { voting_period } => {
            let mut state = match store.state.load() {
                Some(s) => s,
                None => return Err(ContractError::not_found("locking_contract::state::State")),
            };
            state.voting_period = voting_period;
            store.state.save(state);
        },
        SudoMsg::AddNewDelegation { delegation_info } => {
            if store.delegation_info.load(&delegation_info.delegated_address).is_some() {
                return Err(ContractError::custom("Delegation already exists"));
            }
            check_delegation_info(&delegation_info)?;
            store.delegation_info.save(delegation_info.delegated_address.clone(), delegation_info, env.block.height);
        },
        SudoMsg::UpdateExistingDelegation { delegation_info } => {
            if store.delegation_info.load(&delegation_info.delegated_address).is_none() {
                return Err(ContractError::custom("Delegation does not exists"));
            }
            check_delegation_info(&delegation_info)?;
            store.delegation_info.save(delegation_info.delegated_address.clone(), delegation_info, env.block.height);
        },
    }
    let resp = Response::new();
    Ok(resp)
}

/// The name under which the contract records its version.
pub const CONTRACT_NAME: &'static str = "crates.io:locking_contract";

/// The version of the contract.
pub const CONTRACT_VERSION: &'static str = "0.1.0";

/// Whether `a` comes after `b` in the order of strings, which compares them
/// character by character, a string coming after each of its proper
/// prefixes.
fn str_after(a: &String, b: &str) -> (r: bool)
    ensures
        r == text_lt(b@, a@),
{
    broadcast use vstd::string::group_string_axioms;
    let mut ia = a.as_str().chars();
    let mut ib = b.chars();
    loop
        invariant
            text_lt(b@, a@) == text_lt(ib.remaining(), ia.remaining()),
            ib.decrease() is Some,
        decreases ib.decrease()->0,
    {
        let cb = ib.next();
        let ca = ia.next();
        match cb {
            None => {
                return match ca {
                    None => false,
                    Some(_) => true,
                };
            },
            Some(x) => match ca {
                None => {
                    return false;
                },
                Some(y) => {
                    if (x as u32) < (y as u32) {
                        return true;
                    }
                    if x != y {
                        return false;
                    }
                },
            },
        }
    }
}

/// Why a migration from the recorded contract `name` and `version` is
/// refused, if it is.
pub open spec fn migrate_error(stored: Result<(String, String), StdError>) -> Option<ErrorModel> {
    match stored {
        Err(e) => Some(ErrorModel::Std(e@)),
        Ok((name, version)) => if name@ != CONTRACT_NAME@ {
            Some(ErrorModel::Std(StdErrorModel::GenericErr("Can only upgrade from same type"@)))
        } else if text_lt(CONTRACT_VERSION@, version@) {
            Some(ErrorModel::Std(StdErrorModel::GenericErr("Cannot upgrade from a newer version"@)))
        } else {
            None
        },
    }
}

/// Migrates a contract of the same type and of a version no newer than
/// this one, setting the exchange app id; `stored` is the contract name and
/// version recorded on the chain.
pub fn migrate(store: &mut ContractStore, _env: &Env, msg: MigrateMsg, stored: Result<(String, String), StdError>) -> (r: Result<Response, ContractError>)
    ensures
        match migrate_error(stored) {
            Some(e) => r is Err && r->Err_0@ == e && ContractStore::agrees(final(store), old(store), Set::empty()),
            None => {
                &&& r is Ok && r->Ok_0@ == attrs(seq![])
                &&& final(store).cswap_id.writes() == old(store).cswap_id.writes().push(((), 0, Some(msg.cswap_id)))
                &&& ContractStore::agrees(final(store), old(store), set![Part::CswapId])
            },
        },
{
    let (name, version) = match stored {
        Err(e) => return Err(ContractError::Std(e)),
        Ok(v) => v,
    };
    let expected = String::from_str(CONTRACT_NAME);
    if name != expected {
        return Err(ContractError::Std(StdError::GenericErr { msg: String::from_str("Can only upgrade from same type") }));
    }
    if str_after(&version, CONTRACT_VERSION) {
        return Err(ContractError::Std(StdError::GenericErr { msg: String::from_str("Cannot upgrade from a newer version") }));
    }
    store.cswap_id.save(msg.cswap_id);
    Ok(Response::new())
}

} // verus!
