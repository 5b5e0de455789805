//! Spending proposals: made against a bond, then rejected or approved.

use vstd::prelude::*;
use crate::config::proposal_bond;
use crate::module::{same_bounties, same_tips, Module};
use crate::types::{ensure_origin, ensure_signed, AccountId, Balance, Effect, Error, Event, Origin, ProposalIndex};

verus! {

broadcast use vstd::std_specs::hash::group_hash_axioms;

/// A spending proposal.
#[derive(Clone, Copy, Debug, PartialEq, Eq)]
pub struct Proposal {
    /// The account proposing it.
    pub proposer: AccountId,
    /// The (total) amount that should be paid if the proposal is accepted.
    pub value: Balance,
    /// The account to whom the payment should be made if the proposal is accepted.
    pub beneficiary: AccountId,
    /// The amount held on deposit (reserved) for making this proposal.
    pub bond: Balance,
}

impl Module {
    /// The proposal at `id`.
    pub fn proposals(&self, id: ProposalIndex) -> (r: Option<Proposal>)
        ensures
            r == (if self.proposals@.contains_key(id) { Some(self.proposals@[id]) } else { None::<Proposal> }),
    {
        match self.proposals.get(&id) {
            Some(p) => Some(*p),
            None => None,
        }
    }

    /// The needed bond for a proposal whose spend is `value`.
    pub fn calculate_bond(&self, value: Balance) -> (bond: Balance)
        ensures
            bond == proposal_bond(self.config, value),
            bond >= self.config.proposal_bond_minimum,
    {
        self.config.calculate_bond(value)
    }

    /// Put forward a suggestion for spending, as any account. `can_reserve`
    /// says whether the ledger can reserve the bond of `calculate_bond(value)`
    /// from the proposer; the bond is slashed if the proposal is rejected and
    /// released once it is awarded.
    pub fn propose_spend(&mut self, origin: Origin, value: Balance, beneficiary: AccountId, can_reserve: bool) -> (r:
        Result<Vec<Effect>, Error>)
        requires
            old(self).wf(),
            old(self).proposal_count < ProposalIndex::MAX,
        ensures
            final(self).wf(),
            match r {
                Err(e) => propose_refusal(origin, can_reserve) == Some(e) && *final(self) == *old(self),
                Ok(effects) => {
                    let index = old(self).proposal_count;
                    let bond = proposal_bond(old(self).config, value) as Balance;
                    &&& propose_refusal(origin, can_reserve) is None
                    &&& effects@ == seq![
                        Effect::Reserve { who: origin->Signed_0, amount: bond },
                        Effect::Notify(Event::Proposed(index)),
                    ]
                    &&& final(self).proposal_count == index + 1
                    &&& final(self).proposals@ == old(self).proposals@.insert(
                        index,
                        Proposal { proposer: origin->Signed_0, value, beneficiary, bond },
                    )
                    &&& final(self).approvals == old(self).approvals
                    &&& same_tips(*final(self), *old(self))
                    &&& same_bounties(*final(self), *old(self))
                },
            },
    {
        let proposer = ensure_signed(origin)?;
        if !can_reserve {
            return Err(Error::InsufficientProposersBalance);
        }
        let bond = self.calculate_bond(value);
        let index = self.proposal_count;
        self.proposal_count = index + 1;
        self.proposals.insert(index, Proposal { proposer, value, beneficiary, bond });
        let mut effects: Vec<Effect> = Vec::new();
        effects.push(Effect::Reserve { who: proposer, amount: bond });
        effects.push(Effect::Notify(Event::Proposed(index)));
        Ok(effects)
    }

    /// Reject a proposed spend, as the reject authority: the proposal is
    /// forgotten and its bond is slashed.
    pub fn reject_proposal(&mut self, origin: Origin, proposal_id: ProposalIndex) -> (r: Result<Vec<Effect>, Error>)
        requires
            old(self).wf(),
        ensures
            final(self).wf(),
            match r {
                Err(e) => decision_refusal(*old(self), old(self).config.reject_origin, origin, proposal_id) == Some(e)
                    && *final(self) == *old(self),
                Ok(effects) => {
                    let proposal = old(self).proposals@[proposal_id];
                    &&& decision_refusal(*old(self), old(self).config.reject_origin, origin, proposal_id) is None
                    &&& effects@ == seq![
                        Effect::Slash { who: proposal.proposer, amount: proposal.bond },
                        Effect::Notify(Event::Rejected(proposal_id, proposal.bond)),
                    ]
                    &&& final(self).proposals@ == old(self).proposals@.remove(proposal_id)
                    &&& final(self).proposal_count == old(self).proposal_count
                    &&& final(self).approvals == old(self).approvals
                    &&& same_tips(*final(self), *old(self))
                    &&& same_bounties(*final(self), *old(self))
                },
            },
    {
        ensure_origin(self.config.reject_origin, origin)?;
        let proposal = match self.proposals(proposal_id) {
            Some(p) => p,
            None => { return Err(Error::InvalidIndex); },
        };
        self.proposals.remove(&proposal_id);
        let mut effects: Vec<Effect> = Vec::new();
        effects.push(Effect::Slash { who: proposal.proposer, amount: proposal.bond });
        effects.push(Effect::Notify(Event::Rejected(proposal_id, proposal.bond)));
        Ok(effects)
    }

    /// Approve a proposal, as the approve authority: it is queued to be paid
    /// at a spend period. A proposal approved twice is queued twice.
    pub fn approve_proposal(&mut self, origin: Origin, proposal_id: ProposalIndex) -> (r: Result<(), Error>)
        requires
            old(self).wf(),
        ensures
            final(self).wf(),
            match r {
                Err(e) => decision_refusal(*old(self), old(self).config.approve_origin, origin, proposal_id) == Some(e)
                    && *final(self) == *old(self),
                Ok(_) => {
                    &&& decision_refusal(*old(self), old(self).config.approve_origin, origin, proposal_id) is None
                    &&& final(self).approvals@ == old(self).approvals@.push(proposal_id)
                    &&& final(self).proposals == old(self).proposals
                    &&& final(self).proposal_count == old(self).proposal_count
                    &&& same_tips(*final(self), *old(self))
                    &&& same_bounties(*final(self), *old(self))
                },
            },
    {
        ensure_origin(self.config.approve_origin, origin)?;
        if !self.proposals.contains_key(&proposal_id) {
            return Err(Error::InvalidIndex);
        }
        self.approvals.push(proposal_id);
        Ok(())
    }
}

/// Why a proposal is not taken, if it is not: it is not signed, or the ledger
/// cannot reserve its bond.
pub open spec fn propose_refusal(origin: Origin, can_reserve: bool) -> Option<Error> {
    if !(origin is Signed) {
        Some(Error::BadOrigin)
    } else if !can_reserve {
        Some(Error::InsufficientProposersBalance)
    } else {
        None
    }
}

/// Why `origin` cannot decide on proposal `id`, if it cannot: it is not the
/// origin that holds the `authority`, or there is no such proposal.
pub open spec fn decision_refusal(m: Module, authority: Origin, origin: Origin, id: ProposalIndex) -> Option<Error> {
    if origin != authority {
        Some(Error::BadOrigin)
    } else if !m.proposals@.contains_key(id) {
        Some(Error::InvalidIndex)
    } else {
        None
    }
}

} // verus!
