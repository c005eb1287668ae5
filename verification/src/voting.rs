//! Voting on the extended pairs of a proposal and bribing them.
use crate::coins::{add_coin, spec_add_coin};
use crate::contract::{has_duplicate_elements, has_duplicates, is_admin, is_admin_spec};
use crate::decimal::{spec_multiply_ratio, Decimal, DECIMAL_FRACTIONAL};
use crate::env::{Env, EnvModel, MessageInfo, MessageInfoModel};
use crate::error::{custom, missing, Abort, ContractError, ErrorModel};
use crate::model::Duplicate;
use crate::response::{attrs, Response};
use crate::state::{Coin, CoinModel, ProposalModel, Vote, VoteModel, VotePair, VtokenModel};
use crate::store::{ContractStore, Part};
use crate::table::{latest, no_bound, Table, Write};
use crate::rewards::contains_u64;
use vstd::prelude::*;

verus! {

/// Sum of the atomics of ratios.
pub open spec fn ratio_sum(r: Seq<Decimal>) -> int
    decreases r.len(),
{
    if r.len() == 0 {
        0
    } else {
        ratio_sum(r.drop_last()) + r.last().atomics
    }
}

/// Sum of the vtoken amounts of locks: the voting power they give.
pub open spec fn vtoken_power(l: Seq<VtokenModel>) -> int
    decreases l.len(),
{
    if l.len() == 0 {
        0
    } else {
        vtoken_power(l.drop_last()) + l.last().vtoken.amount
    }
}

/// Sum of the weights of a vote.
pub open spec fn weight_sum(v: Seq<VotePair>) -> int
    decreases v.len(),
{
    if v.len() == 0 {
        0
    } else {
        weight_sum(v.drop_last()) + v.last().vote_weight
    }
}

pub(crate) proof fn lemma_sums_nonneg(r: Seq<Decimal>, l: Seq<VtokenModel>, v: Seq<VotePair>)
    ensures
        ratio_sum(r) >= 0,
        vtoken_power(l) >= 0,
        weight_sum(v) >= 0,
    decreases r.len() + l.len() + v.len(),
{
    if r.len() > 0 {
        lemma_sums_nonneg(r.drop_last(), l, v);
    } else if l.len() > 0 {
        lemma_sums_nonneg(r, l.drop_last(), v);
    } else if v.len() > 0 {
        lemma_sums_nonneg(r, l, v.drop_last());
    }
}

/// The parts of a vote: each pair gets `power * ratio` of the voting power.
pub open spec fn spec_vote_pairs(pairs: Seq<u64>, ratios: Seq<Decimal>, power: u128) -> Option<Seq<VotePair>>
    decreases pairs.len(),
{
    if pairs.len() == 0 || ratios.len() == 0 {
        Some(seq![])
    } else {
        match spec_vote_pairs(pairs.drop_last(), ratios.drop_last(), power) {
            None => None,
            Some(p) => match spec_multiply_ratio(power, ratios.last().atomics, DECIMAL_FRACTIONAL) {
                None => None,
                Some(w) => Some(p.push(VotePair { extended_pair: pairs.last(), vote_ratio: ratios.last(), vote_weight: w })),
            },
        }
    }
}

/// The writes that adding (or taking away) the weights of `votes` to the
/// total votes of their pairs makes, one pair after the other; `None` when a
/// total goes out of range.
pub open spec fn vote_updates(w: Seq<Write<(u64, u64), u128>>, pid: u64, votes: Seq<VotePair>, add: bool) -> Option<Seq<Write<(u64, u64), u128>>>
    decreases votes.len(),
{
    if votes.len() == 0 {
        Some(w)
    } else {
        match vote_updates(w, pid, votes.drop_last(), add) {
            None => None,
            Some(w2) => {
                let key = (pid, votes.last().extended_pair);
                let cur = match latest(w2, key, no_bound()) {
                    Some(c) => c as int,
                    None => 0,
                };
                let new = if add {
                    cur + votes.last().vote_weight
                } else {
                    cur - votes.last().vote_weight
                };
                if new < 0 || new > u128::MAX {
                    None
                } else {
                    Some(w2.push((key, 0, Some(new as u128))))
                }
            },
        }
    }
}

/// Adds (or takes away) the weights of `votes` to the totals of their pairs.
/// On failure the table only holds further writes.
fn apply_vote_updates(table: &mut Table<(u64, u64), u128>, pid: u64, votes: &Vec<VotePair>, add: bool) -> (r: bool)
    ensures
        match vote_updates(old(table).writes(), pid, votes.deep_view(), add) {
            Some(w) => r && final(table).writes() == w,
            None => !r,
        },
        final(table).extends(old(table)),
{
    proof {
        assert(table.writes().subrange(0, table.writes().len() as int) =~= table.writes());
        assert(votes.deep_view().subrange(0, 0) =~= Seq::<VotePair>::empty());
    }
    let mut i: usize = 0;
    while i < votes.len()
        invariant
            i <= votes.len(),
            vote_updates(old(table).writes(), pid, votes.deep_view().subrange(0, i as int), add) == Some(table.writes()),
            table.extends(old(table)),
        decreases votes.len() - i,
    {
        proof {
            assert(votes.deep_view().subrange(0, i + 1).drop_last() =~= votes.deep_view().subrange(0, i as int));
        }
        let v = votes[i];
        let key = (pid, v.extended_pair);
        let cur = match table.load(&key) {
            Some(c) => c,
            None => 0,
        };
        let new = if add {
            cur.checked_add(v.vote_weight)
        } else {
            cur.checked_sub(v.vote_weight)
        };
        match new {
            Some(n) => {
                let ghost before = *table;
                table.save(key, n, 0);
                proof {
                    assert(table.writes().subrange(0, old(table).writes().len() as int) =~= old(table).writes()) by {
                        assert(before.writes().subrange(0, old(table).writes().len() as int) =~= old(table).writes());
                    }
                }
            },
            None => {
                proof {
                    lemma_updates_prefix(old(table).writes(), pid, votes.deep_view(), add, i + 1);
                }
                return false;
            },
        }
        i = i + 1;
    }
    proof {
        assert(votes.deep_view().subrange(0, votes.len() as int) =~= votes.deep_view());
    }
    true
}

proof fn lemma_updates_prefix(w: Seq<Write<(u64, u64), u128>>, pid: u64, votes: Seq<VotePair>, add: bool, i: int)
    requires
        0 <= i <= votes.len(),
        vote_updates(w, pid, votes.subrange(0, i), add) is None,
    ensures
        vote_updates(w, pid, votes, add) is None,
    decreases votes.len() - i,
{
    if i < votes.len() {
        assert(votes.subrange(0, i + 1).drop_last() =~= votes.subrange(0, i));
        lemma_updates_prefix(w, pid, votes, add, i + 1);
    } else {
        assert(votes.subrange(0, i) =~= votes);
    }
}

/// The voting power of `sender` at the beginning of block `height`: its
/// vtokens of `denom` (or, for a delegated address, what was delegated to
/// it), less what it has delegated; or why it has none.
pub open spec fn spec_vote_power(store: &ContractStore, sender: Seq<char>, denom: Seq<char>, height: u64) -> Result<u128, ErrorModel> {
    let vt = store.vtokens.get_at((sender, denom), height);
    let dl = store.delegation_stats.get_at(sender, height);
    if vt is None && dl is None {
        Err(custom("No tokens locked to perform voting on proposals"))
    } else if vt is Some && vtoken_power(vt->Some_0) > u128::MAX {
        Err(ErrorModel::Aborted(Abort::Overflow))
    } else {
        let p = match dl {
            Some(s) => s.total_delegated,
            None => vtoken_power(vt->Some_0) as u128,
        };
        if p == 0 {
            Err(custom("No tokens locked to perform voting on proposals"))
        } else {
            match store.delegated.get_at(sender, height) {
                Some(d) => if d.total_casted > p {
                    Err(ErrorModel::Aborted(Abort::Overflow))
                } else {
                    Ok((p - d.total_casted) as u128)
                },
                None => Ok(p),
            }
        }
    }
}

/// Sum of the vtoken amounts of a list of locks.
pub fn sum_vtokens(list: &Vec<crate::state::Vtoken>) -> (r: Option<u128>)
    ensures
        vtoken_power(list.deep_view()) <= u128::MAX ==> r == Some(vtoken_power(list.deep_view()) as u128),
        vtoken_power(list.deep_view()) > u128::MAX ==> r is None,
{
    let mut acc: u128 = 0;
    let mut i: usize = 0;
    while i < list.len()
        invariant
            i <= list.len(),
            acc == vtoken_power(list.deep_view().subrange(0, i as int)),
        decreases list.len() - i,
    {
        proof {
            assert(list.deep_view().subrange(0, i + 1).drop_last() =~= list.deep_view().subrange(0, i as int));
        }
        match acc.checked_add(list[i].vtoken.amount) {
            Some(a) => acc = a,
            None => {
                proof {
                    lemma_power_prefix(list.deep_view(), i + 1);
                }
                return None;
            },
        }
        i = i + 1;
    }
    proof {
        assert(list.deep_view().subrange(0, list.len() as int) =~= list.deep_view());
    }
    Some(acc)
}

proof fn lemma_power_prefix(l: Seq<VtokenModel>, i: int)
    requires
        0 <= i <= l.len(),
    ensures
        vtoken_power(l.subrange(0, i)) <= vtoken_power(l),
    decreases l.len() - i,
{
    if i < l.len() {
        lemma_power_prefix(l, i + 1);
        assert(l.subrange(0, i + 1).drop_last() =~= l.subrange(0, i));
    } else {
        assert(l.subrange(0, i) =~= l);
    }
}

fn vote_power(store: &ContractStore, sender: &String, denom: &String, height: u64) -> (r: Result<u128, ContractError>)
    ensures
        match spec_vote_power(store, sender@, denom@, height) {
            Ok(p) => r == Ok::<u128, ContractError>(p),
            Err(e) => r is Err && r->Err_0@ == e,
        },
{
    let vt = store.vtokens.load_at_height(&(sender.clone(), denom.clone()), height);
    let dl = store.delegation_stats.load_at_height(sender, height);
    if vt.is_none() && dl.is_none() {
        return Err(ContractError::custom("No tokens locked to perform voting on proposals"));
    }
    let mut power: u128 = 0;
    if let Some(list) = &vt {
        power = match sum_vtokens(list) {
            Some(p) => p,
            None => return Err(ContractError::aborted(Abort::Overflow)),
        };
    }
    if let Some(stats) = dl {
        power = stats.total_delegated;
    }
    if power == 0 {
        return Err(ContractError::custom("No tokens locked to perform voting on proposals"));
    }
    match store.delegated.load_at_height(sender, height) {
        Some(d) => if d.total_casted > power {
            Err(ContractError::aborted(Abort::Overflow))
        } else {
            Ok(power - d.total_casted)
        },
        None => Ok(power),
    }
}

/// Every element of `a` occurs in `b`.
pub open spec fn all_in(a: Seq<u64>, b: Seq<u64>) -> bool {
    forall|i: int| 0 <= i < a.len() ==> b.contains(#[trigger] a[i])
}

fn all_contained(a: &Vec<u64>, b: &Vec<u64>) -> (r: bool)
    ensures
        r == all_in(a@, b@),
{
    let mut i: usize = 0;
    while i < a.len()
        invariant
            i <= a.len(),
            forall|k: int| 0 <= k < i ==> b@.contains(#[trigger] a@[k]),
        decreases a.len() - i,
    {
        let x = a[i];
        let mut found = false;
        let mut j: usize = 0;
        while j < b.len()
            invariant
                j <= b.len(),
                found ==> b@.contains(x),
                !found ==> forall|k: int| 0 <= k < j ==> b@[k] != x,
            decreases b.len() - j,
        {
            if b[j] == x {
                found = true;
                assert(b@[j as int] == x);
            }
            j = j + 1;
        }
        if !found {
            assert(!b@.contains(a@[i as int]));
            return false;
        }
        i = i + 1;
    }
    true
}

/// What a vote writes: the totals of the pairs, the proposal and the vote.
pub struct VotePlan {
    pub proposal_votes: Seq<Write<(u64, u64), u128>>,
    pub proposal: ProposalModel,
    pub vote: VoteModel,
}

/// The effect of `info.sender` voting on proposal `pid` with the given
/// `ratios` of its voting power for `pairs`, or why the vote is refused.
pub open spec fn spec_vote(
    store: &ContractStore,
    env: EnvModel,
    info: MessageInfoModel,
    pid: u64,
    pairs: Seq<u64>,
    denom: Seq<char>,
    ratios: Seq<Decimal>,
) -> Result<VotePlan, ErrorModel> {
    if is_admin_spec(store, info.sender) {
        Err(custom("Admin cannot vote"))
    } else if info.funds.len() != 0 {
        Err(ErrorModel::FundsNotAllowed)
    } else {
        match store.proposal.get(pid) {
            None => Err(missing("locking_contract::state::Proposal")),
            Some(p) => if p.voting_end_time.nanos < env.time.nanos {
                Err(custom("Proposal Voting Period Ended"))
            } else if pairs.len() != ratios.len() {
                Err(custom("Invalid ratio"))
            } else if ratio_sum(ratios) > u128::MAX {
                Err(ErrorModel::Aborted(Abort::Overflow))
            } else if ratio_sum(ratios) > DECIMAL_FRACTIONAL {
                Err(custom("Ratio cannot be more than 100 %"))
            } else if has_duplicates(pairs) {
                Err(custom("Extended pair has duplicate elements"))
            } else if ratio_sum(ratios) == 0 {
                Err(custom("voted ratio cannot be zero"))
            } else if !all_in(pairs, p.extended_pair) {
                Err(custom("Extended pair does not exist in proposal"))
            } else {
                match spec_vote_power(store, info.sender, denom, p.height) {
                    Err(e) => Err(e),
                    Ok(power) => {
                        let voted = store.voters_vote.get((info.sender, pid)) == Some(true);
                        if voted && store.voters_proposal.get((info.sender, pid)) is None {
                            Err(missing("locking_contract::state::Vote"))
                        } else {
                            let prev = if voted {
                                store.voters_proposal.get((info.sender, pid))->Some_0.votes
                            } else {
                                seq![]
                            };
                            let total = p.total_voted_weight - weight_sum(prev);
                            match spec_vote_pairs(pairs, ratios, power) {
                                None => Err(ErrorModel::Aborted(Abort::Overflow)),
                                Some(new) => match vote_updates(store.proposal_vote.writes(), pid, prev, false) {
                                    None => Err(ErrorModel::Aborted(Abort::Overflow)),
                                    Some(w1) => match vote_updates(w1, pid, new, true) {
                                        None => Err(ErrorModel::Aborted(Abort::Overflow)),
                                        Some(w2) => if total < 0 || total + weight_sum(new) > u128::MAX {
                                            Err(ErrorModel::Aborted(Abort::Overflow))
                                        } else {
                                            Ok(VotePlan {
                                                proposal_votes: w2,
                                                proposal: ProposalModel { total_voted_weight: (total + weight_sum(new)) as u128, ..p },
                                                vote: VoteModel {
                                                    voting_power_total: power,
                                                    total_voted_ratio: Decimal { atomics: ratio_sum(ratios) as u128 },
                                                    votes: new,
                                                },
                                            })
                                        },
                                    },
                                },
                            }
                        }
                    },
                }
            },
        }
    }
}

fn ratio_total(ratios: &Vec<Decimal>) -> (r: Option<u128>)
    ensures
        ratio_sum(ratios@) <= u128::MAX ==> r == Some(ratio_sum(ratios@) as u128),
        ratio_sum(ratios@) > u128::MAX ==> r is None,
{
    let mut acc: u128 = 0;
    let mut i: usize = 0;
    while i < ratios.len()
        invariant
            i <= ratios.len(),
            acc == ratio_sum(ratios@.subrange(0, i as int)),
        decreases ratios.len() - i,
    {
        proof {
            assert(ratios@.subrange(0, i + 1).drop_last() =~= ratios@.subrange(0, i as int));
        }
        match acc.checked_add(ratios[i].atomics) {
            Some(a) => acc = a,
            None => {
                proof {
                    lemma_ratio_prefix(ratios@, i + 1);
                }
                return None;
            },
        }
        i = i + 1;
    }
    proof {
        assert(ratios@.subrange(0, ratios.len() as int) =~= ratios@);
    }
    Some(acc)
}

proof fn lemma_ratio_prefix(r: Seq<Decimal>, i: int)
    requires
        0 <= i <= r.len(),
    ensures
        ratio_sum(r.subrange(0, i)) <= ratio_sum(r),
    decreases r.len() - i,
{
    if i < r.len() {
        lemma_ratio_prefix(r, i + 1);
        assert(r.subrange(0, i + 1).drop_last() =~= r.subrange(0, i));
    } else {
        assert(r.subrange(0, i) =~= r);
    }
}

fn make_vote_pairs(pairs: &Vec<u64>, ratios: &Vec<Decimal>, power: u128) -> (r: Option<Vec<VotePair>>)
    requires
        pairs.len() == ratios.len(),
    ensures
        match spec_vote_pairs(pairs@, ratios@, power) {
            None => r is None,
            Some(v) => r is Some && r->Some_0.deep_view() == v,
        },
{
    let mut out: Vec<VotePair> = Vec::new();
    let mut i: usize = 0;
    while i < pairs.len()
        invariant
            i <= pairs.len(),
            pairs.len() == ratios.len(),
            spec_vote_pairs(pairs@.subrange(0, i as int), ratios@.subrange(0, i as int), power) == Some(out.deep_view()),
        decreases pairs.len() - i,
    {
        proof {
            assert(pairs@.subrange(0, i + 1).drop_last() =~= pairs@.subrange(0, i as int));
            assert(ratios@.subrange(0, i + 1).drop_last() =~= ratios@.subrange(0, i as int));
        }
        let w = match ratios[i].checked_mul_amount(power) {
            Some(w) => w,
            None => {
                proof {
                    lemma_pairs_prefix(pairs@, ratios@, power, i + 1);
                }
                return None;
            },
        };
        let ghost before = out.deep_view();
        out.push(VotePair { extended_pair: pairs[i], vote_ratio: ratios[i], vote_weight: w });
        proof {
            assert(out.deep_view() =~= before.push(VotePair { extended_pair: pairs@[i as int], vote_ratio: ratios@[i as int], vote_weight: w }));
        }
        i = i + 1;
    }
    proof {
        assert(pairs@.subrange(0, pairs.len() as int) =~= pairs@);
        assert(ratios@.subrange(0, ratios.len() as int) =~= ratios@);
    }
    Some(out)
}

proof fn lemma_pairs_prefix(pairs: Seq<u64>, ratios: Seq<Decimal>, power: u128, i: int)
    requires
        0 <= i <= pairs.len(),
        pairs.len() == ratios.len(),
        spec_vote_pairs(pairs.subrange(0, i), ratios.subrange(0, i), power) is None,
    ensures
        spec_vote_pairs(pairs, ratios, power) is None,
    decreases pairs.len() - i,
{
    if i < pairs.len() {
        assert(pairs.subrange(0, i + 1).drop_last() =~= pairs.subrange(0, i));
        assert(ratios.subrange(0, i + 1).drop_last() =~= ratios.subrange(0, i));
        lemma_pairs_prefix(pairs, ratios, power, i + 1);
    } else {
        assert(pairs.subrange(0, i) =~= pairs);
        assert(ratios.subrange(0, i) =~= ratios);
    }
}

/// `total` plus (or minus) the weights of `votes`; `None` when out of range.
fn shift_total(total: u128, votes: &Vec<VotePair>, add: bool) -> (r: Option<u128>)
    ensures
        ({
            let t = if add {
                total + weight_sum(votes.deep_view())
            } else {
                total - weight_sum(votes.deep_view())
            };
            &&& (0 <= t <= u128::MAX) ==> r == Some(t as u128)
            &&& !(0 <= t <= u128::MAX) ==> r is None
        }),
{
    let mut acc: u128 = total;
    let mut i: usize = 0;
    while i < votes.len()
        invariant
            i <= votes.len(),
            acc == (if add {
                total + weight_sum(votes.deep_view().subrange(0, i as int))
            } else {
                total - weight_sum(votes.deep_view().subrange(0, i as int))
            }),
        decreases votes.len() - i,
    {
        proof {
            assert(votes.deep_view().subrange(0, i + 1).drop_last() =~= votes.deep_view().subrange(0, i as int));
        }
        let n = if add {
            acc.checked_add(votes[i].vote_weight)
        } else {
            acc.checked_sub(votes[i].vote_weight)
        };
        match n {
            Some(a) => acc = a,
            None => {
                proof {
                    lemma_weight_prefix(votes.deep_view(), i + 1);
                    lemma_sums_nonneg(seq![], seq![], votes.deep_view().subrange(0, i + 1));
                }
                return None;
            },
        }
        i = i + 1;
    }
    proof {
        assert(votes.deep_view().subrange(0, votes.len() as int) =~= votes.deep_view());
    }
    Some(acc)
}

proof fn lemma_weight_prefix(v: Seq<VotePair>, i: int)
    requires
        0 <= i <= v.len(),
    ensures
        weight_sum(v.subrange(0, i)) <= weight_sum(v),
    decreases v.len() - i,
{
    if i < v.len() {
        lemma_weight_prefix(v, i + 1);
        assert(v.subrange(0, i + 1).drop_last() =~= v.subrange(0, i));
    } else {
        assert(v.subrange(0, i) =~= v);
    }
}

/// The outcome of `vote_proposal` from `old` to `new` with answer `r`.
pub open spec fn vote_outcome(old: &ContractStore, new: &ContractStore, r: Result<Response, ContractError>, env: EnvModel, info: MessageInfoModel, proposal_id: u64, extended_pair: Seq<u64>, gov_token_denom: Seq<char>, ratio: Seq<Decimal>) -> bool {
    match spec_vote(old, env, info, proposal_id, extended_pair, gov_token_denom, ratio) {
        Err(e) => r is Err && r->Err_0@ == e && ContractStore::agrees(new, old, Set::empty()),
        Ok(plan) => {
            &&& r is Ok
            &&& r->Ok_0@ == attrs(seq![("method"@, "voted for proposal"@)])
            &&& new.proposal_vote.writes() == plan.proposal_votes
            &&& new.voters_proposal.writes() == old.voters_proposal.writes().push(((info.sender, proposal_id), 0, Some(plan.vote)))
            &&& new.proposal.writes() == old.proposal.writes().push((proposal_id, 0, Some(plan.proposal)))
            &&& new.voters_vote.writes() == old.voters_vote.writes().push(((info.sender, proposal_id), 0, Some(true)))
            &&& ContractStore::agrees(new, old, set![Part::ProposalVote, Part::VotersProposal, Part::Proposal, Part::VotersVote])
        },
    }
}

/// `info.sender` votes on proposal `proposal_id`: each of `extended_pair`
/// gets the matching share in `ratio` of its voting power at the proposal's
/// height, replacing the sender's earlier vote on the proposal, if any.
pub fn vote_proposal(
    store: &mut ContractStore,
    env: &Env,
    info: &MessageInfo,
    _app_id: u64,
    proposal_id: u64,
    extended_pair: Vec<u64>,
    gov_token_denom: String,
    ratio: Vec<Decimal>,
) -> (r: Result<Response, ContractError>)
    ensures
        vote_outcome(old(store), final(store), r, env@, info@, proposal_id, extended_pair@, gov_token_denom@, ratio@),
{
    if is_admin(store, &info.sender) {
        return Err(ContractError::custom("Admin cannot vote"));
    }
    if info.funds.len() != 0 {
        return Err(ContractError::FundsNotAllowed {});
    }
    let mut proposal = match store.proposal.load(&proposal_id) {
        Some(p) => p,
        None => return Err(ContractError::not_found("locking_contract::state::Proposal")),
    };
    if proposal.voting_end_time.nanos < env.block.time.nanos {
        return Err(ContractError::custom("Proposal Voting Period Ended"));
    }
    if extended_pair.len() != ratio.len() {
        return Err(ContractError::custom("Invalid ratio"));
    }
    proof {
        lemma_sums_nonneg(ratio@, seq![], seq![]);
    }
    let total_ration = match ratio_total(&ratio) {
        Some(t) => t,
        None => return Err(ContractError::aborted(Abort::Overflow)),
    };
    if total_ration > DECIMAL_FRACTIONAL {
        return Err(ContractError::custom("Ratio cannot be more than 100 %"));
    }
    if has_duplicate_elements(&extended_pair) {
        return Err(ContractError::custom("Extended pair has duplicate elements"));
    }
    if total_ration == 0 {
        return Err(ContractError::custom("voted ratio cannot be zero"));
    }
    if !all_contained(&extended_pair, &proposal.extended_pair) {
        return Err(ContractError::custom("Extended pair does not exist in proposal"));
    }
    let power = vote_power(store, &info.sender, &gov_token_denom, proposal.height)?;
    let key = (info.sender.clone(), proposal_id);
    let voted = match store.voters_vote.load(&key) {
        Some(v) => v,
        None => false,
    };
    let prev: Vec<VotePair> = if voted {
        match store.voters_proposal.load(&key) {
            Some(v) => v.votes,
            None => return Err(ContractError::not_found("locking_contract::state::Vote")),
        }
    } else {
        Vec::new()
    };
    proof {
        lemma_sums_nonneg(seq![], seq![], prev.deep_view());
        if !voted {
            assert(prev.deep_view() =~= Seq::<VotePair>::empty());
        }
    }
    let new = match make_vote_pairs(&extended_pair, &ratio, power) {
        Some(v) => v,
        None => return Err(ContractError::aborted(Abort::Overflow)),
    };
    proof {
        lemma_sums_nonneg(seq![], seq![], new.deep_view());
    }
    let total = match shift_total(proposal.total_voted_weight, &prev, false) {
        Some(t) => match shift_total(t, &new, true) {
            Some(t2) => t2,
            None => return Err(ContractError::aborted(Abort::Overflow)),
        },
        None => return Err(ContractError::aborted(Abort::Overflow)),
    };
    let m = store.proposal_vote.mark();
    if !apply_vote_updates(&mut store.proposal_vote, proposal_id, &prev, false) {
        store.proposal_vote.rollback(m);
        return Err(ContractError::aborted(Abort::Overflow));
    }
    let ghost w1 = store.proposal_vote.writes();
    if !apply_vote_updates(&mut store.proposal_vote, proposal_id, &new, true) {
        proof {
            assert(store.proposal_vote.writes().subrange(0, m as int) =~= old(store).proposal_vote.writes()) by {
                assert(w1.subrange(0, m as int) =~= old(store).proposal_vote.writes());
            }
        }
        store.proposal_vote.rollback(m);
        return Err(ContractError::aborted(Abort::Overflow));
    }
    proposal.total_voted_weight = total;
    let vote = Vote { voting_power_total: power, total_voted_ratio: Decimal::raw(total_ration), votes: new };
    store.voters_proposal.save((info.sender.clone(), proposal_id), vote, 0);
    store.proposal.save(proposal_id, proposal, 0);
    store.voters_vote.save((info.sender.clone(), proposal_id), true, 0);
    let resp = Response::new().add_attribute_str("method", "voted for proposal");
    proof {
        assert(resp@.attributes =~= seq![("method"@, "voted for proposal"@)]);
    }
    Ok(resp)
}

/// The bribes of the pair once `bribe` is added, or why the bribe is
/// refused: every pair of the proposal may be bribed while it is open.
pub open spec fn spec_bribe(store: &ContractStore, env: EnvModel, info: MessageInfoModel, pid: u64, pair: u64, bribe: CoinModel) -> Result<Seq<CoinModel>, ErrorModel> {
    if info.funds.len() == 0 {
        Err(ErrorModel::InsufficientFunds(0))
    } else if info.funds.len() > 1 {
        Err(custom("Multiple denominations are not supported"))
    } else if info.funds[0].amount == 0 {
        Err(ErrorModel::InsufficientFunds(0))
    } else {
        match store.proposal.get(pid) {
            None => Err(missing("locking_contract::state::Proposal")),
            Some(p) => if p.voting_end_time.nanos < env.time.nanos {
                Err(custom("Proposal Bribing Period Ended"))
            } else if !p.extended_pair.contains(pair) {
                Err(custom("Invalid Extended pair"))
            } else {
                let existing = match store.bribes_by_proposal.get((pid, pair)) {
                    Some(l) => l,
                    None => seq![],
                };
                match spec_add_coin(existing, bribe) {
                    None => Err(ErrorModel::Aborted(Abort::Overflow)),
                    Some(l) => Ok(l),
                }
            },
        }
    }
}

/// The outcome of a bribe matches the model.
pub open spec fn bribe_outcome(old: &ContractStore, new: &ContractStore, r: Result<Response, ContractError>, pid: u64, pair: u64, outcome: Result<Seq<CoinModel>, ErrorModel>) -> bool {
    match outcome {
        Err(e) => r is Err && r->Err_0@ == e && ContractStore::agrees(new, old, Set::empty()),
        Ok(l) => {
            &&& r is Ok
            &&& r->Ok_0@ == attrs(seq![("method"@, "bribe"@)])
            &&& new.bribes_by_proposal.writes() == old.bribes_by_proposal.writes().push(((pid, pair), 0, Some(l)))
            &&& ContractStore::agrees(new, old, set![Part::BribesByProposal])
        },
    }
}

/// The outcome of `bribe_proposal` from `old` to `new` with answer `r`.
pub open spec fn bribe_proposal_outcome(old: &ContractStore, new: &ContractStore, r: Result<Response, ContractError>, env: EnvModel, info: MessageInfoModel, proposal_id: u64, extended_pair: u64, bribe_coin: CoinModel) -> bool {
    bribe_outcome(old, new, r, proposal_id, extended_pair, spec_bribe(old, env, info, proposal_id, extended_pair, bribe_coin))
}

/// Deposits `bribe_coin` as a bribe for `extended_pair` of proposal
/// `proposal_id`, to be shared by its voters; open during the voting period.
pub fn bribe_proposal(store: &mut ContractStore, env: &Env, info: &MessageInfo, proposal_id: u64, extended_pair: u64, bribe_coin: Coin) -> (r: Result<Response, ContractError>)
    ensures
        bribe_proposal_outcome(old(store), final(store), r, env@, info@, proposal_id, extended_pair, bribe_coin@),
{
    if info.funds.len() == 0 {
        return Err(ContractError::InsufficientFunds { funds: 0 });
    } else if info.funds.len() > 1 {
        return Err(ContractError::custom("Multiple denominations are not supported"));
    }
    if info.funds[0].amount == 0 {
        return Err(ContractError::InsufficientFunds { funds: 0 });
    }
    let proposal = match store.proposal.load(&proposal_id) {
        Some(p) => p,
        None => return Err(ContractError::not_found("locking_contract::state::Proposal")),
    };
    if proposal.voting_end_time.nanos < env.block.time.nanos {
        return Err(ContractError::custom("Proposal Bribing Period Ended"));
    }
    if !contains_u64(&proposal.extended_pair, extended_pair) {
        return Err(ContractError::custom("Invalid Extended pair"));
    }
    let mut existing = match store.bribes_by_proposal.load(&(proposal_id, extended_pair)) {
        Some(l) => l,
        None => Vec::new(),
    };
    proof {
        if store.bribes_by_proposal.get((proposal_id, extended_pair)) is None {
            assert(existing.deep_view() =~= Seq::<CoinModel>::empty());
        }
    }
    match add_coin(&mut existing, bribe_coin) {
        Ok(()) => {},
        Err(a) => return Err(ContractError::aborted(a)),
    }
    store.bribes_by_proposal.save((proposal_id, extended_pair), existing, 0);
    let resp = Response::new().add_attribute_str("method", "bribe");
    proof {
        assert(resp@.attributes =~= seq![("method"@, "bribe"@)]);
    }
    Ok(resp)
}

} // verus!
