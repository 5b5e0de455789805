//! The state of a treasury.

use std::collections::HashMap;
use vstd::prelude::*;
use crate::bounties::Bounty;
use crate::config::Config;
use crate::proposals::Proposal;
use crate::table::Table;
use crate::declarations::sorted_by_account;
use crate::tips::OpenTip;
use crate::types::{Account, Balance, BountyIndex, ProposalIndex, H256};

verus! {

broadcast use vstd::std_specs::hash::group_hash_axioms;

/// A treasury: its parameters and everything it keeps between operations.
pub struct Module {
    /// The parameters.
    pub config: Config,
    /// Number of proposals that have been made.
    pub proposal_count: ProposalIndex,
    /// Proposals that have been made.
    pub proposals: HashMap<ProposalIndex, Proposal>,
    /// Proposal indices that have been approved but not yet awarded.
    pub approvals: Vec<ProposalIndex>,
    /// Tips that are not yet completed, by the digest of reason and beneficiary.
    pub tips: Table<OpenTip>,
    /// The reasons of the open tips, by their digest.
    pub reasons: Table<Vec<u8>>,
    /// Number of bounty proposals that have been made.
    pub bounty_count: BountyIndex,
    /// Bounties that have been made.
    pub bounties: HashMap<BountyIndex, Bounty>,
    /// The description of each bounty.
    pub bounty_descriptions: HashMap<BountyIndex, Vec<u8>>,
    /// Bounty indices that have been approved but not yet funded.
    pub bounty_approvals: Vec<BountyIndex>,
    /// Minimum value for a bounty or sub-bounty.
    pub bounty_value_minimum: Balance,
}

/// Whether the bounty with index `index` is top-level or has a parent with a
/// smaller index: the bounties form a forest.
pub open spec fn after_parent(index: BountyIndex, bounty: Bounty) -> bool {
    bounty.parent is Some ==> bounty.parent->0 < index
}

/// Whether every entry of `queue` is an approved bounty, and none occurs twice.
pub open spec fn awaiting_funds(queue: Seq<BountyIndex>, bounties: Map<BountyIndex, Bounty>) -> bool {
    &&& queue.no_duplicates()
    &&& forall|j: int| 0 <= j < queue.len() ==> bounties.contains_key(#[trigger] queue[j])
            && bounties[queue[j]].status is Approved
}

/// What an account that holds `free` can spend while it keeps `floor`.
pub open spec fn spendable(free: int, floor: int) -> int {
    if free >= floor { free - floor } else { 0 }
}

/// Whether two treasuries have the same parameters and agree on all that
/// concerns spending proposals.
pub open spec fn same_proposals(a: Module, b: Module) -> bool {
    &&& a.config == b.config
    &&& a.proposal_count == b.proposal_count
    &&& a.proposals == b.proposals
    &&& a.approvals == b.approvals
}

/// Whether two treasuries have the same parameters and agree on all that
/// concerns tips.
pub open spec fn same_tips(a: Module, b: Module) -> bool {
    &&& a.config == b.config
    &&& a.tips == b.tips
    &&& a.reasons == b.reasons
}

/// Whether two treasuries have the same parameters and agree on all that
/// concerns bounties.
pub open spec fn same_bounties(a: Module, b: Module) -> bool {
    &&& a.config == b.config
    &&& a.bounty_count == b.bounty_count
    &&& a.bounties == b.bounties
    &&& a.bounty_descriptions == b.bounty_descriptions
    &&& a.bounty_approvals == b.bounty_approvals
    &&& a.bounty_value_minimum == b.bounty_value_minimum
}

impl Module {
    /// The parameters are valid, no proposal or bounty has an index that is
    /// still to be given out, every sub-bounty came after its parent, every
    /// description belongs to a bounty, the bounty queue holds approved
    /// bounties and none of them twice, and the declarations of every open tip
    /// are sorted by account.
    pub open spec fn wf(&self) -> bool {
        &&& self.config.valid()
        &&& self.tips.wf()
        &&& self.reasons.wf()
        &&& forall|i: ProposalIndex| self.proposals@.contains_key(i) ==> i < self.proposal_count
        &&& forall|i: BountyIndex| self.bounties@.contains_key(i) ==> i < self.bounty_count
        &&& forall|i: BountyIndex| #[trigger]
            self.bounties@.contains_key(i) ==> after_parent(i, self.bounties@[i])
        &&& forall|i: BountyIndex| #[trigger] self.bounty_descriptions@.contains_key(i)
                ==> self.bounties@.contains_key(i)
        &&& awaiting_funds(self.bounty_approvals@, self.bounties@)
        &&& forall|h: H256| #[trigger] self.tips.map().contains_key(h)
                ==> sorted_by_account(self.tips.map()[h].tips@)
    }

    /// Whether the treasury has the parameters `config` and nothing else:
    /// nothing was made, nothing is queued, and any bounty is accepted whatever
    /// its value.
    pub open spec fn fresh(&self, config: Config) -> bool {
        &&& self.config == config
        &&& self.proposal_count == 0
        &&& self.proposals@ == Map::<ProposalIndex, Proposal>::empty()
        &&& self.approvals@ == Seq::<ProposalIndex>::empty()
        &&& self.tips.map() == Map::<H256, OpenTip>::empty()
        &&& self.reasons.map() == Map::<H256, Vec<u8>>::empty()
        &&& self.bounty_count == 0
        &&& self.bounties@ == Map::<BountyIndex, Bounty>::empty()
        &&& self.bounty_descriptions@ == Map::<BountyIndex, Vec<u8>>::empty()
        &&& self.bounty_approvals@ == Seq::<BountyIndex>::empty()
        &&& self.bounty_value_minimum == 0
    }

    /// A treasury with nothing in it, or `None` where the parameters are not valid.
    pub fn new(config: Config) -> (r: Option<Module>)
        ensures
            r is Some <==> config.valid(),
            r is Some ==> r->0.wf() && r->0.fresh(config),
    {
        if !config.is_valid() {
            return None;
        }
        let m = Module {
            config,
            proposal_count: 0,
            proposals: HashMap::new(),
            approvals: Vec::new(),
            tips: Table::new(),
            reasons: Table::new(),
            bounty_count: 0,
            bounties: HashMap::new(),
            bounty_descriptions: HashMap::new(),
            bounty_approvals: Vec::new(),
            bounty_value_minimum: 0,
        };
        Some(m)
    }

    /// Number of proposals that have been made.
    pub fn proposal_count(&self) -> (n: ProposalIndex)
        ensures
            n == self.proposal_count,
    {
        self.proposal_count
    }

    /// Proposal indices that have been approved but not yet awarded.
    pub fn approvals(&self) -> (queue: &Vec<ProposalIndex>)
        ensures
            queue@ == self.approvals@,
    {
        &self.approvals
    }

    /// Number of bounty proposals that have been made.
    pub fn bounty_count(&self) -> (n: BountyIndex)
        ensures
            n == self.bounty_count,
    {
        self.bounty_count
    }

    /// The description of the bounty at `id`.
    pub fn bounty_descriptions(&self, id: BountyIndex) -> (r: Option<&Vec<u8>>)
        ensures
            r is Some <==> self.bounty_descriptions@.contains_key(id),
            r is Some ==> *r->0 == self.bounty_descriptions@[id],
    {
        self.bounty_descriptions.get(&id)
    }

    /// Bounty indices that have been approved but not yet funded.
    pub fn bounty_approvals(&self) -> (queue: &Vec<BountyIndex>)
        ensures
            queue@ == self.bounty_approvals@,
    {
        &self.bounty_approvals
    }

    /// Minimum value for a bounty or sub-bounty.
    pub fn bounty_value_minimum(&self) -> (v: Balance)
        ensures
            v == self.bounty_value_minimum,
    {
        self.bounty_value_minimum
    }

    /// The amount of money in the pot of a treasury whose account holds
    /// `free` and has to keep `minimum`: the minimum is no part of the pot, so
    /// that spending the pot never closes the account.
    pub fn pot(free: Balance, minimum: Balance) -> (pot: Balance)
        ensures
            pot == spendable(free as int, minimum as int),
            free <= minimum ==> pot == 0,
            pot <= free,
    {
        if free >= minimum { free - minimum } else { 0 }
    }

    /// The account of the treasury pot.
    pub fn account_id() -> (a: Account)
        ensures
            a == Account::Treasury,
    {
        Account::Treasury
    }

    /// The account of a bounty.
    pub fn bounty_account_id(id: BountyIndex) -> (a: Account)
        ensures
            a == Account::Bounty(id),
    {
        Account::Bounty(id)
    }
}

} // verus!
