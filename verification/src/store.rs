//! The contract's storage: every item and keyed table that the operations
//! read and write, with the history needed to read a table as it was at an
//! earlier block.
use crate::model::Duplicate;
use crate::state::{
    Coin, DelegationInfo, DelegationStats, Emission, EmissionVaultPool, Proposal, State, TokenInfo,
    TokenSupply, UserDelegationInfo, Vote, Vtoken,
};
use crate::table::{Table, Write};
use vstd::prelude::*;

verus! {

/// A single stored value, with the history of its writes.
pub struct Item<T> {
    pub table: Table<(), T>,
}

impl<T: Duplicate> Item<T> {
    /// Every write made to the item, by model.
    pub open spec fn writes(&self) -> Seq<Write<(), T::V>> {
        self.table.writes()
    }

    /// The current value.
    pub open spec fn get(&self) -> Option<T::V> {
        self.table.get(())
    }

    pub fn new() -> (i: Self)
        ensures
            i.writes() == Seq::<Write<(), T::V>>::empty(),
            i.get() is None,
    {
        Item { table: Table::new() }
    }

    pub fn load(&self) -> (r: Option<T>)
        ensures
            r.deep_view() == self.get(),
    {
        self.table.load(&())
    }

    pub fn save(&mut self, v: T)
        ensures
            final(self).writes() == old(self).writes().push(((), 0, Some(v.deep_view()))),
    {
        self.table.save((), v, 0)
    }
}

/// Names of the items and tables of the store.
pub enum Part {
    State,
    Admin,
    ProposalCount,
    CswapId,
    Tokens,
    Supply,
    Vtokens,
    Emission,
    Proposal,
    AppCurrentProposal,
    ProposalVote,
    BribesByProposal,
    VotersVote,
    VotersProposal,
    CompletedProposals,
    RebaseClaimed,
    VotersClaim,
    VotersClaimedProposals,
    EmissionReward,
    Delegated,
    DelegationInfo,
    DelegationStats,
    DelegatorClaim,
    DelegatorClaimedProposals,
}

/// All that the contract stores.
pub struct ContractStore {
    /// Contract-wide parameters.
    pub state: Item<State>,
    /// The admin address.
    pub admin: Item<String>,
    /// Number of proposals raised so far.
    pub proposal_count: Item<u64>,
    /// App id of the exchange whose pools may be voted for.
    pub cswap_id: Item<u64>,
    /// Owner to NFT.
    pub tokens: Table<String, TokenInfo>,
    /// Total locked tokens and issued vtokens of each denomination.
    pub supply: Table<String, TokenSupply>,
    /// Vtokens owned by an address for a denomination.
    pub vtokens: Table<(String, String), Vec<Vtoken>>,
    /// Emission parameters of each app.
    pub emission: Table<u64, Emission>,
    /// Proposals by id.
    pub proposal: Table<u64, Proposal>,
    /// The latest proposal raised for each app.
    pub app_current_proposal: Table<u64, u64>,
    /// Total vote weight of each (proposal, extended pair).
    pub proposal_vote: Table<(u64, u64), u128>,
    /// Bribes deposited for each (proposal, extended pair).
    pub bribes_by_proposal: Table<(u64, u64), Vec<Coin>>,
    /// Whether an address has voted on a proposal.
    pub voters_vote: Table<(String, u64), bool>,
    /// The vote of an address on a proposal.
    pub voters_proposal: Table<(String, u64), Vote>,
    /// Proposals of each app whose emission has completed.
    pub completed_proposals: Table<u64, Vec<u64>>,
    /// Whether an address has claimed its rebase of a proposal.
    pub rebase_claimed: Table<(String, u64), bool>,
    /// Whether an address has claimed its bribes of a proposal.
    pub voters_claim: Table<(String, u64), bool>,
    /// Proposals whose bribes an address has claimed.
    pub voters_claimed_proposals: Table<String, Vec<u64>>,
    /// Emission rewards of each proposal.
    pub emission_reward: Table<u64, EmissionVaultPool>,
    /// Delegations made by each address.
    pub delegated: Table<String, UserDelegationInfo>,
    /// Parameters of each address that accepts delegations.
    pub delegation_info: Table<String, DelegationInfo>,
    /// Totals of what has been delegated to each delegated address.
    pub delegation_stats: Table<String, DelegationStats>,
    /// Whether a delegator has claimed its bribes of a proposal.
    pub delegator_claim: Table<(String, u64), bool>,
    /// Proposals whose bribes a delegator has claimed.
    pub delegator_claimed_proposals: Table<String, Vec<u64>>,
}

/// Lengths of the histories of a store, to return to.
pub struct Checkpoint {
    pub lens: Vec<usize>,
}

impl ContractStore {
    /// `a` and `b` hold the same writes in every part outside `changed`.
    pub open spec fn agrees(a: &ContractStore, b: &ContractStore, changed: Set<Part>) -> bool {
        &&& (!changed.contains(Part::State) ==> a.state.writes() == b.state.writes())
        &&& (!changed.contains(Part::Admin) ==> a.admin.writes() == b.admin.writes())
        &&& (!changed.contains(Part::ProposalCount) ==> a.proposal_count.writes() == b.proposal_count.writes())
        &&& (!changed.contains(Part::CswapId) ==> a.cswap_id.writes() == b.cswap_id.writes())
        &&& (!changed.contains(Part::Tokens) ==> a.tokens.writes() == b.tokens.writes())
        &&& (!changed.contains(Part::Supply) ==> a.supply.writes() == b.supply.writes())
        &&& (!changed.contains(Part::Vtokens) ==> a.vtokens.writes() == b.vtokens.writes())
        &&& (!changed.contains(Part::Emission) ==> a.emission.writes() == b.emission.writes())
        &&& (!changed.contains(Part::Proposal) ==> a.proposal.writes() == b.proposal.writes())
        &&& (!changed.contains(Part::AppCurrentProposal) ==> a.app_current_proposal.writes() == b.app_current_proposal.writes())
        &&& (!changed.contains(Part::ProposalVote) ==> a.proposal_vote.writes() == b.proposal_vote.writes())
        &&& (!changed.contains(Part::BribesByProposal) ==> a.bribes_by_proposal.writes() == b.bribes_by_proposal.writes())
        &&& (!changed.contains(Part::VotersVote) ==> a.voters_vote.writes() == b.voters_vote.writes())
        &&& (!changed.contains(Part::VotersProposal) ==> a.voters_proposal.writes() == b.voters_proposal.writes())
        &&& (!changed.contains(Part::CompletedProposals) ==> a.completed_proposals.writes() == b.completed_proposals.writes())
        &&& (!changed.contains(Part::RebaseClaimed) ==> a.rebase_claimed.writes() == b.rebase_claimed.writes())
        &&& (!changed.contains(Part::VotersClaim) ==> a.voters_claim.writes() == b.voters_claim.writes())
        &&& (!changed.contains(Part::VotersClaimedProposals) ==> a.voters_claimed_proposals.writes() == b.voters_claimed_proposals.writes())
        &&& (!changed.contains(Part::EmissionReward) ==> a.emission_reward.writes() == b.emission_reward.writes())
        &&& (!changed.contains(Part::Delegated) ==> a.delegated.writes() == b.delegated.writes())
        &&& (!changed.contains(Part::DelegationInfo) ==> a.delegation_info.writes() == b.delegation_info.writes())
        &&& (!changed.contains(Part::DelegationStats) ==> a.delegation_stats.writes() == b.delegation_stats.writes())
        &&& (!changed.contains(Part::DelegatorClaim) ==> a.delegator_claim.writes() == b.delegator_claim.writes())
        &&& (!changed.contains(Part::DelegatorClaimedProposals) ==> a.delegator_claimed_proposals.writes() == b.delegator_claimed_proposals.writes())
    }

    /// Every part of `a` continues the history of the same part of `b`.
    pub open spec fn extends(a: &ContractStore, b: &ContractStore) -> bool {
        &&& a.state.table.extends(&b.state.table)
        &&& a.admin.table.extends(&b.admin.table)
        &&& a.proposal_count.table.extends(&b.proposal_count.table)
        &&& a.cswap_id.table.extends(&b.cswap_id.table)
        &&& a.tokens.extends(&b.tokens)
        &&& a.supply.extends(&b.supply)
        &&& a.vtokens.extends(&b.vtokens)
        &&& a.emission.extends(&b.emission)
        &&& a.proposal.extends(&b.proposal)
        &&& a.app_current_proposal.extends(&b.app_current_proposal)
        &&& a.proposal_vote.extends(&b.proposal_vote)
        &&& a.bribes_by_proposal.extends(&b.bribes_by_proposal)
        &&& a.voters_vote.extends(&b.voters_vote)
        &&& a.voters_proposal.extends(&b.voters_proposal)
        &&& a.completed_proposals.extends(&b.completed_proposals)
        &&& a.rebase_claimed.extends(&b.rebase_claimed)
        &&& a.voters_claim.extends(&b.voters_claim)
        &&& a.voters_claimed_proposals.extends(&b.voters_claimed_proposals)
        &&& a.emission_reward.extends(&b.emission_reward)
        &&& a.delegated.extends(&b.delegated)
        &&& a.delegation_info.extends(&b.delegation_info)
        &&& a.delegation_stats.extends(&b.delegation_stats)
        &&& a.delegator_claim.extends(&b.delegator_claim)
        &&& a.delegator_claimed_proposals.extends(&b.delegator_claimed_proposals)
    }

    /// An empty store.
    pub fn new() -> (s: ContractStore)
        ensures
            s.state.get() is None,
            s.admin.get() is None,
            s.proposal_count.get() is None,
            s.cswap_id.get() is None,
            forall|k: Seq<char>| #[trigger] s.tokens.get(k) is None,
            forall|k: Seq<char>| #[trigger] s.supply.get(k) is None,
            forall|k: (Seq<char>, Seq<char>)| #[trigger] s.vtokens.get(k) is None,
            forall|k: u64| #[trigger] s.proposal.get(k) is None,
    {
        ContractStore {
            state: Item::new(),
            admin: Item::new(),
            proposal_count: Item::new(),
            cswap_id: Item::new(),
            tokens: Table::new(),
            supply: Table::new(),
            vtokens: Table::new(),
            emission: Table::new(),
            proposal: Table::new(),
            app_current_proposal: Table::new(),
            proposal_vote: Table::new(),
            bribes_by_proposal: Table::new(),
            voters_vote: Table::new(),
            voters_proposal: Table::new(),
            completed_proposals: Table::new(),
            rebase_claimed: Table::new(),
            voters_claim: Table::new(),
            voters_claimed_proposals: Table::new(),
            emission_reward: Table::new(),
            delegated: Table::new(),
            delegation_info: Table::new(),
            delegation_stats: Table::new(),
            delegator_claim: Table::new(),
            delegator_claimed_proposals: Table::new(),
        }
    }
}

} // verus!
