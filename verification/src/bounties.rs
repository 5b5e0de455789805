//! Bounties: proposed against a bond, approved, funded at a spend period,
//! then awarded, claimed, cancelled or extended; and sub-bounties carved out
//! of an active bounty by its curator.

use vstd::prelude::*;
use crate::config::data_deposit;
use crate::module::{same_proposals, same_tips, Module};
use crate::types::{
    ensure_origin, ensure_signed, Account, AccountId, Balance, BlockNumber, BountyIndex, Effect, Error, Event, Origin,
};

verus! {

broadcast use vstd::std_specs::hash::group_hash_axioms;

/// The status of a bounty proposal.
#[derive(Clone, Copy, Debug, PartialEq, Eq)]
pub enum BountyStatus {
    /// The bounty is proposed and waiting for approval.
    Proposed,
    /// The bounty is approved and waiting to become active at next spend period.
    Approved,
    /// The bounty is active and waiting to be awarded.
    Active { expires: BlockNumber },
    /// The bounty is awarded and waiting to released after a delay.
    PendingPayout {
        /// The beneficiary of the bounty.
        beneficiary: AccountId,
        /// When the bounty can be claimed.
        unlock_at: BlockNumber,
    },
}

impl BountyStatus {
    /// Whether the bounty is active.
    pub fn is_active(&self) -> (b: bool)
        ensures
            b == (*self is Active),
    {
        match self {
            BountyStatus::Active { .. } => true,
            _ => false,
        }
    }
}

/// A bounty proposal.
#[derive(Clone, Copy, Debug, PartialEq, Eq)]
pub struct Bounty {
    /// The account proposing it.
    pub proposer: AccountId,
    /// The account manages this bounty.
    pub curator: AccountId,
    /// The (total) amount that should be paid if the bounty is rewarded.
    pub value: Balance,
    /// The curator fee. Included in value.
    pub fee: Balance,
    /// The amount held on deposit (reserved) for making this proposal.
    pub bond: Balance,
    /// The status of this bounty.
    pub status: BountyStatus,
    /// The parent bounty id. None if this is top level bounty.
    pub parent: Option<BountyIndex>,
}

/// The parent of bounty `id`, where it has one.
pub open spec fn parent_of(bounties: Map<BountyIndex, Bounty>, id: BountyIndex) -> Option<BountyIndex> {
    if bounties.contains_key(id) { bounties[id].parent } else { None }
}

/// Whether the chain of bounties that starts at `parent` and goes up from
/// parent to parent reaches a top-level bounty within `depth` steps.
pub open spec fn depth_within(bounties: Map<BountyIndex, Bounty>, parent: Option<BountyIndex>, depth: nat) -> bool
    decreases depth,
{
    match parent {
        None => true,
        Some(id) => depth > 0 && depth_within(bounties, parent_of(bounties, id), (depth - 1) as nat),
    }
}

/// What a new bounty is asked for.
pub struct BountyRequest {
    pub proposer: AccountId,
    pub curator: AccountId,
    pub fee: Balance,
    pub value: Balance,
    /// Length of the description, in bytes.
    pub description_len: nat,
    /// The bounty to carve the new one out of, for a sub-bounty.
    pub parent: Option<BountyIndex>,
    /// Whether the ledger can take what the request costs: the bond from the
    /// proposer or, for a sub-bounty, the value out of the parent's account.
    pub payable: bool,
}

/// The first reason, if any, for which a request for a bounty is refused.
pub open spec fn bounty_refusal(m: Module, q: BountyRequest) -> Option<Error> {
    if q.description_len > m.config.maximum_reason_length {
        Some(Error::ReasonTooBig)
    } else if q.value < m.bounty_value_minimum {
        Some(Error::InvalidValue)
    } else if q.fee >= q.value {
        Some(Error::InvalidFee)
    } else {
        match q.parent {
            Some(id) => {
                if !m.bounties@.contains_key(id) {
                    Some(Error::InvalidIndex)
                } else if !(m.bounties@[id].status is Active) {
                    Some(Error::UnexpectedStatus)
                } else if q.proposer != m.bounties@[id].curator {
                    Some(Error::RequireCurator)
                } else if q.fee >= m.bounties@[id].fee {
                    Some(Error::InvalidFee)
                } else if q.value >= m.bounties@[id].value {
                    Some(Error::InvalidValue)
                } else if !depth_within(m.bounties@, q.parent, m.config.maximum_sub_bounty_depth as nat) {
                    Some(Error::ExceedDepthLimit)
                } else if !q.payable {
                    Some(Error::FundingFailed)
                } else {
                    None
                }
            },
            None => {
                if !q.payable {
                    Some(Error::InsufficientProposersBalance)
                } else {
                    None
                }
            },
        }
    }
}

/// The bounties once a request that is not refused has been granted at block
/// `now`: the new bounty stands under the next free index and, for a
/// sub-bounty, its fee and value are taken off its parent's.
pub open spec fn bounties_with(m: Module, q: BountyRequest, now: BlockNumber) -> Map<BountyIndex, Bounty> {
    match q.parent {
        Some(id) => {
            let parent = m.bounties@[id];
            m.bounties@.insert(
                id,
                Bounty { fee: (parent.fee - q.fee) as Balance, value: (parent.value - q.value) as Balance, ..parent },
            ).insert(
                m.bounty_count,
                Bounty {
                    proposer: q.proposer,
                    curator: q.curator,
                    value: q.value,
                    fee: q.fee,
                    bond: 0,
                    status: BountyStatus::Active { expires: (now + m.config.bounty_duration) as BlockNumber },
                    parent: q.parent,
                },
            )
        },
        None => m.bounties@.insert(
            m.bounty_count,
            Bounty {
                proposer: q.proposer,
                curator: q.curator,
                value: q.value,
                fee: q.fee,
                bond: data_deposit(m.config.bounty_deposit_base, m.config.data_deposit_per_byte,
                    q.description_len as int) as Balance,
                status: BountyStatus::Proposed,
                parent: None,
            },
        ),
    }
}

/// The instructions that go with a granted request.
pub open spec fn bounty_effects(m: Module, q: BountyRequest) -> Seq<Effect> {
    match q.parent {
        Some(id) => seq![
            Effect::Transfer {
                from: Account::Bounty(id),
                to: Account::Bounty(m.bounty_count),
                amount: q.value,
                keep_alive: true,
            },
            Effect::Notify(Event::BountyProposed(m.bounty_count)),
            Effect::Notify(Event::BountyBecameActive(m.bounty_count)),
        ],
        None => seq![
            Effect::Reserve {
                who: q.proposer,
                amount: data_deposit(m.config.bounty_deposit_base, m.config.data_deposit_per_byte,
                    q.description_len as int) as Balance,
            },
            Effect::Notify(Event::BountyProposed(m.bounty_count)),
        ],
    }
}

impl Module {
    /// The bounty at `id`.
    pub fn bounties(&self, id: BountyIndex) -> (r: Option<Bounty>)
        ensures
            r == (if self.bounties@.contains_key(id) { Some(self.bounties@[id]) } else { None::<Bounty> }),
    {
        match self.bounties.get(&id) {
            Some(b) => Some(*b),
            None => None,
        }
    }

    /// Whether a sub-bounty of `parent_bounty_id` stays within `depth` levels.
    pub fn check_bounty_depth(&self, parent_bounty_id: Option<BountyIndex>, depth: u8) -> (ok: bool)
        ensures
            ok == depth_within(self.bounties@, parent_bounty_id, depth as nat),
        decreases depth,
    {
        match parent_bounty_id {
            Some(id) => {
                if depth == 0 {
                    return false;
                }
                let next = match self.bounties(id) {
                    Some(b) => b.parent,
                    None => None,
                };
                self.check_bounty_depth(next, depth - 1)
            },
            None => true,
        }
    }

    /// Make a bounty: a top-level one against a bond where `parent_bounty_id`
    /// is `None`, else a sub-bounty carved out of that parent by its curator.
    ///
    /// `payable` says whether the ledger can take what the bounty costs: for a
    /// top-level bounty the bond of `bounty_bond(description.len())` from the
    /// proposer, for a sub-bounty `value` out of the parent's account, which
    /// must keep its minimum balance.
    pub fn create_bounty(
        &mut self,
        proposer: AccountId,
        curator: AccountId,
        description: Vec<u8>,
        fee: Balance,
        value: Balance,
        parent_bounty_id: Option<BountyIndex>,
        now: BlockNumber,
        payable: bool,
    ) -> (r: Result<Vec<Effect>, Error>)
        requires
            old(self).wf(),
            old(self).bounty_count < BountyIndex::MAX,
            now + old(self).config.bounty_duration <= BlockNumber::MAX,
        ensures
            final(self).wf(),
            ({
                let q = BountyRequest {
                    proposer,
                    curator,
                    fee,
                    value,
                    description_len: description@.len(),
                    parent: parent_bounty_id,
                    payable,
                };
                match r {
                    Err(e) => bounty_refusal(*old(self), q) == Some(e) && *final(self) == *old(self),
                    Ok(effects) => {
                        &&& bounty_refusal(*old(self), q) is None
                        &&& effects@ == bounty_effects(*old(self), q)
                        &&& final(self).bounties@ == bounties_with(*old(self), q, now)
                        &&& final(self).bounty_descriptions@ == old(self).bounty_descriptions@.insert(
                            old(self).bounty_count,
                            description,
                        )
                        &&& final(self).bounty_count == old(self).bounty_count + 1
                        &&& final(self).bounty_approvals == old(self).bounty_approvals
                        &&& final(self).bounty_value_minimum == old(self).bounty_value_minimum
                        &&& same_proposals(*final(self), *old(self))
                        &&& same_tips(*final(self), *old(self))
                    },
                }
            }),
    {
        if description.len() > self.config.maximum_reason_length as usize {
            return Err(Error::ReasonTooBig);
        }
        if value < self.bounty_value_minimum {
            return Err(Error::InvalidValue);
        }
        if fee >= value {
            return Err(Error::InvalidFee);
        }
        let index = self.bounty_count;
        let mut effects: Vec<Effect> = Vec::new();
        let bounty = match parent_bounty_id {
            Some(parent_id) => {
                let parent = match self.bounties(parent_id) {
                    Some(p) => p,
                    None => { return Err(Error::InvalidIndex); },
                };
                if !parent.status.is_active() {
                    return Err(Error::UnexpectedStatus);
                }
                if proposer != parent.curator {
                    return Err(Error::RequireCurator);
                }
                if fee >= parent.fee {
                    return Err(Error::InvalidFee);
                }
                if value >= parent.value {
                    return Err(Error::InvalidValue);
                }
                if !self.check_bounty_depth(Some(parent_id), self.config.maximum_sub_bounty_depth) {
                    return Err(Error::ExceedDepthLimit);
                }
                if !payable {
                    return Err(Error::FundingFailed);
                }
                effects.push(Effect::Transfer {
                    from: Account::Bounty(parent_id),
                    to: Account::Bounty(index),
                    amount: value,
                    keep_alive: true,
                });
                effects.push(Effect::Notify(Event::BountyProposed(index)));
                effects.push(Effect::Notify(Event::BountyBecameActive(index)));
                self.bounties.insert(
                    parent_id,
                    Bounty { fee: parent.fee - fee, value: parent.value - value, ..parent },
                );
                let expires = now + self.config.bounty_duration;
                Bounty {
                    proposer,
                    curator,
                    value,
                    fee,
                    bond: 0,
                    status: BountyStatus::Active { expires },
                    parent: parent_bounty_id,
                }
            },
            None => {
                if !payable {
                    return Err(Error::InsufficientProposersBalance);
                }
                let bond = self.config.bounty_bond(description.len());
                effects.push(Effect::Reserve { who: proposer, amount: bond });
                effects.push(Effect::Notify(Event::BountyProposed(index)));
                Bounty { proposer, curator, value, fee, bond, status: BountyStatus::Proposed, parent: None }
            },
        };
        self.bounty_count = index + 1;
        self.bounties.insert(index, bounty);
        self.bounty_descriptions.insert(index, description);
        Ok(effects)
    }

    /// Propose a top-level bounty, as any account. `can_reserve` says whether
    /// the ledger can reserve the bond of `bounty_bond(description.len())` from
    /// the proposer.
    pub fn propose_bounty(
        &mut self,
        origin: Origin,
        curator: AccountId,
        fee: Balance,
        value: Balance,
        description: Vec<u8>,
        can_reserve: bool,
    ) -> (r: Result<Vec<Effect>, Error>)
        requires
            old(self).wf(),
            old(self).bounty_count < BountyIndex::MAX,
        ensures
            final(self).wf(),
            ({
                let q = BountyRequest {
                    proposer: origin->Signed_0,
                    curator,
                    fee,
                    value,
                    description_len: description@.len(),
                    parent: None,
                    payable: can_reserve,
                };
                match r {
                    Err(e) => signed_bounty_refusal(*old(self), origin, q) == Some(e) && *final(self) == *old(self),
                    Ok(effects) => {
                        &&& signed_bounty_refusal(*old(self), origin, q) is None
                        &&& effects@ == bounty_effects(*old(self), q)
                        &&& final(self).bounties@ == bounties_with(*old(self), q, 0)
                        &&& final(self).bounty_descriptions@ == old(self).bounty_descriptions@.insert(
                            old(self).bounty_count,
                            description,
                        )
                        &&& final(self).bounty_count == old(self).bounty_count + 1
                        &&& final(self).bounty_approvals == old(self).bounty_approvals
                        &&& final(self).bounty_value_minimum == old(self).bounty_value_minimum
                        &&& same_proposals(*final(self), *old(self))
                        &&& same_tips(*final(self), *old(self))
                    },
                }
            }),
    {
        let proposer = ensure_signed(origin)?;
        self.create_bounty(proposer, curator, description, fee, value, None, 0, can_reserve)
    }

    /// Carve a sub-bounty out of the active bounty `parent_bounty_id`, as its
    /// curator. `can_transfer` says whether the ledger can move `value` out of
    /// the parent's account, which must keep its minimum balance.
    pub fn create_sub_bounty(
        &mut self,
        origin: Origin,
        parent_bounty_id: BountyIndex,
        curator: AccountId,
        fee: Balance,
        value: Balance,
        description: Vec<u8>,
        now: BlockNumber,
        can_transfer: bool,
    ) -> (r: Result<Vec<Effect>, Error>)
        requires
            old(self).wf(),
            old(self).bounty_count < BountyIndex::MAX,
            now + old(self).config.bounty_duration <= BlockNumber::MAX,
        ensures
            final(self).wf(),
            ({
                let q = BountyRequest {
                    proposer: origin->Signed_0,
                    curator,
                    fee,
                    value,
                    description_len: description@.len(),
                    parent: Some(parent_bounty_id),
                    payable: can_transfer,
                };
                match r {
                    Err(e) => signed_bounty_refusal(*old(self), origin, q) == Some(e) && *final(self) == *old(self),
                    Ok(effects) => {
                        &&& signed_bounty_refusal(*old(self), origin, q) is None
                        &&& effects@ == bounty_effects(*old(self), q)
                        &&& final(self).bounties@ == bounties_with(*old(self), q, now)
                        &&& final(self).bounty_descriptions@ == old(self).bounty_descriptions@.insert(
                            old(self).bounty_count,
                            description,
                        )
                        &&& final(self).bounty_count == old(self).bounty_count + 1
                        &&& final(self).bounty_approvals == old(self).bounty_approvals
                        &&& final(self).bounty_value_minimum == old(self).bounty_value_minimum
                        &&& same_proposals(*final(self), *old(self))
                        &&& same_tips(*final(self), *old(self))
                    },
                }
            }),
    {
        let proposer = ensure_signed(origin)?;
        self.create_bounty(proposer, curator, description, fee, value, Some(parent_bounty_id), now, can_transfer)
    }

    /// Reject a proposed bounty, as the reject authority: its bond is slashed
    /// and it is forgotten with its description.
    pub fn reject_bounty(&mut self, origin: Origin, bounty_id: BountyIndex) -> (r: Result<Vec<Effect>, Error>)
        requires
            old(self).wf(),
        ensures
            final(self).wf(),
            match r {
                Err(e) => bounty_decision_refusal(*old(self), old(self).config.reject_origin, origin, bounty_id)
                    == Some(e) && *final(self) == *old(self),
                Ok(effects) => {
                    &&& bounty_decision_refusal(*old(self), old(self).config.reject_origin, origin, bounty_id) is None
                    &&& effects@ == seq![
                        Effect::Slash {
                            who: old(self).bounties@[bounty_id].proposer,
                            amount: old(self).bounties@[bounty_id].bond,
                        },
                        Effect::Notify(Event::BountyRejected(bounty_id, old(self).bounties@[bounty_id].bond)),
                    ]
                    &&& final(self).bounties@ == old(self).bounties@.remove(bounty_id)
                    &&& final(self).bounty_descriptions@ == old(self).bounty_descriptions@.remove(bounty_id)
                    &&& final(self).bounty_count == old(self).bounty_count
                    &&& final(self).bounty_approvals == old(self).bounty_approvals
                    &&& final(self).bounty_value_minimum == old(self).bounty_value_minimum
                    &&& same_proposals(*final(self), *old(self))
                    &&& same_tips(*final(self), *old(self))
                },
            },
    {
        ensure_origin(self.config.reject_origin, origin)?;
        let bounty = match self.bounties(bounty_id) {
            Some(b) => b,
            None => { return Err(Error::InvalidIndex); },
        };
        match bounty.status {
            BountyStatus::Proposed => {},
            _ => { return Err(Error::UnexpectedStatus); },
        }
        self.bounty_descriptions.remove(&bounty_id);
        self.bounties.remove(&bounty_id);
        let mut effects: Vec<Effect> = Vec::new();
        effects.push(Effect::Slash { who: bounty.proposer, amount: bounty.bond });
        effects.push(Effect::Notify(Event::BountyRejected(bounty_id, bounty.bond)));
        Ok(effects)
    }

    /// Approve a proposed bounty, as the approve authority: it is queued to be
    /// funded at a spend period. Its bond stays reserved until then.
    pub fn approve_bounty(&mut self, origin: Origin, bounty_id: BountyIndex) -> (r: Result<(), Error>)
        requires
            old(self).wf(),
        ensures
            final(self).wf(),
            match r {
                Err(e) => bounty_decision_refusal(*old(self), old(self).config.approve_origin, origin, bounty_id)
                    == Some(e) && *final(self) == *old(self),
                Ok(_) => {
                    &&& bounty_decision_refusal(*old(self), old(self).config.approve_origin, origin, bounty_id) is None
                    &&& final(self).bounties@ == old(self).bounties@.insert(
                        bounty_id,
                        Bounty { status: BountyStatus::Approved, ..old(self).bounties@[bounty_id] },
                    )
                    &&& final(self).bounty_approvals@ == old(self).bounty_approvals@.push(bounty_id)
                    &&& final(self).bounty_descriptions == old(self).bounty_descriptions
                    &&& final(self).bounty_count == old(self).bounty_count
                    &&& final(self).bounty_value_minimum == old(self).bounty_value_minimum
                    &&& same_proposals(*final(self), *old(self))
                    &&& same_tips(*final(self), *old(self))
                },
            },
    {
        ensure_origin(self.config.approve_origin, origin)?;
        let bounty = match self.bounties(bounty_id) {
            Some(b) => b,
            None => { return Err(Error::InvalidIndex); },
        };
        match bounty.status {
            BountyStatus::Proposed => {},
            _ => { return Err(Error::UnexpectedStatus); },
        }
        self.bounties.insert(bounty_id, Bounty { status: BountyStatus::Approved, ..bounty });
        self.bounty_approvals.push(bounty_id);
        Ok(())
    }

    /// Award an active bounty to `beneficiary`, as its curator: it can be
    /// claimed once the payout delay has passed.
    pub fn award_bounty(
        &mut self,
        origin: Origin,
        bounty_id: BountyIndex,
        beneficiary: AccountId,
        now: BlockNumber,
    ) -> (r: Result<Vec<Effect>, Error>)
        requires
            old(self).wf(),
            now + old(self).config.bounty_deposit_payout_delay <= BlockNumber::MAX,
        ensures
            final(self).wf(),
            match r {
                Err(e) => curator_refusal(*old(self), origin, bounty_id) == Some(e) && *final(self) == *old(self),
                Ok(effects) => {
                    &&& curator_refusal(*old(self), origin, bounty_id) is None
                    &&& effects@ == seq![Effect::Notify(Event::BountyAwarded(bounty_id, beneficiary))]
                    &&& final(self).bounties@ == old(self).bounties@.insert(
                        bounty_id,
                        Bounty {
                            status: BountyStatus::PendingPayout {
                                beneficiary,
                                unlock_at: (now + old(self).config.bounty_deposit_payout_delay) as BlockNumber,
                            },
                            ..old(self).bounties@[bounty_id]
                        },
                    )
                    &&& final(self).bounty_descriptions == old(self).bounty_descriptions
                    &&& final(self).bounty_approvals == old(self).bounty_approvals
                    &&& final(self).bounty_count == old(self).bounty_count
                    &&& final(self).bounty_value_minimum == old(self).bounty_value_minimum
                    &&& same_proposals(*final(self), *old(self))
                    &&& same_tips(*final(self), *old(self))
                },
            },
    {
        let curator = ensure_signed(origin)?;
        let bounty = match self.bounties(bounty_id) {
            Some(b) => b,
            None => { return Err(Error::InvalidIndex); },
        };
        if !bounty.status.is_active() {
            return Err(Error::UnexpectedStatus);
        }
        if bounty.curator != curator {
            return Err(Error::RequireCurator);
        }
        let unlock_at = now + self.config.bounty_deposit_payout_delay;
        self.bounties.insert(
            bounty_id,
            Bounty { status: BountyStatus::PendingPayout { beneficiary, unlock_at }, ..bounty },
        );
        let mut effects: Vec<Effect> = Vec::new();
        effects.push(Effect::Notify(Event::BountyAwarded(bounty_id, beneficiary)));
        Ok(effects)
    }

    /// Claim an awarded bounty whose payout delay has passed, as any account.
    /// The curator is paid the fee, the beneficiary what is then left of
    /// `balance`, the free balance of the bounty's account.
    pub fn claim_bounty(&mut self, origin: Origin, bounty_id: BountyIndex, now: BlockNumber, balance: Balance) -> (r:
        Result<Vec<Effect>, Error>)
        requires
            old(self).wf(),
        ensures
            final(self).wf(),
            match r {
                Err(e) => claim_refusal(*old(self), origin, bounty_id, now) == Some(e) && *final(self) == *old(self),
                Ok(effects) => {
                    &&& claim_refusal(*old(self), origin, bounty_id, now) is None
                    &&& old(self).bounties@[bounty_id].status matches BountyStatus::PendingPayout {
                        beneficiary,
                        unlock_at,
                    } && effects@ == claim_effects(
                        bounty_id,
                        old(self).bounties@[bounty_id],
                        beneficiary,
                        balance,
                    )
                    &&& final(self).bounties@ == old(self).bounties@.remove(bounty_id)
                    &&& final(self).bounty_descriptions@ == old(self).bounty_descriptions@.remove(bounty_id)
                    &&& final(self).bounty_approvals == old(self).bounty_approvals
                    &&& final(self).bounty_count == old(self).bounty_count
                    &&& final(self).bounty_value_minimum == old(self).bounty_value_minimum
                    &&& same_proposals(*final(self), *old(self))
                    &&& same_tips(*final(self), *old(self))
                },
            },
    {
        let _ = ensure_signed(origin)?;
        let bounty = match self.bounties(bounty_id) {
            Some(b) => b,
            None => { return Err(Error::InvalidIndex); },
        };
        match bounty.status {
            BountyStatus::PendingPayout { beneficiary, unlock_at } => {
                if now < unlock_at {
                    return Err(Error::Premature);
                }
                let fee = bounty.fee;
                let payout = if balance >= fee { balance - fee } else { 0 };
                let mut effects: Vec<Effect> = Vec::new();
                effects.push(Effect::Transfer {
                    from: Account::Bounty(bounty_id),
                    to: Account::User(bounty.curator),
                    amount: fee,
                    keep_alive: false,
                });
                effects.push(Effect::Transfer {
                    from: Account::Bounty(bounty_id),
                    to: Account::User(beneficiary),
                    amount: payout,
                    keep_alive: false,
                });
                effects.push(Effect::Notify(Event::BountyClaimed(bounty_id, payout, beneficiary)));
                self.bounties.remove(&bounty_id);
                self.bounty_descriptions.remove(&bounty_id);
                Ok(effects)
            },
            _ => Err(Error::UnexpectedStatus),
        }
    }

    /// Cancel an active bounty: its curator may at any time, anyone may once
    /// it has expired. What its account holds, `balance`, goes back to the pot.
    pub fn cancel_bounty(&mut self, origin: Origin, bounty_id: BountyIndex, now: BlockNumber, balance: Balance) -> (r:
        Result<Vec<Effect>, Error>)
        requires
            old(self).wf(),
        ensures
            final(self).wf(),
            match r {
                Err(e) => cancel_refusal(*old(self), origin, bounty_id, now) == Some(e) && *final(self) == *old(self),
                Ok(effects) => {
                    &&& cancel_refusal(*old(self), origin, bounty_id, now) is None
                    &&& effects@ == seq![
                        Effect::Transfer {
                            from: Account::Bounty(bounty_id),
                            to: Account::Treasury,
                            amount: balance,
                            keep_alive: false,
                        },
                        Effect::Notify(Event::BountyCanceled(bounty_id)),
                    ]
                    &&& final(self).bounties@ == old(self).bounties@.remove(bounty_id)
                    &&& final(self).bounty_descriptions@ == old(self).bounty_descriptions@.remove(bounty_id)
                    &&& final(self).bounty_approvals == old(self).bounty_approvals
                    &&& final(self).bounty_count == old(self).bounty_count
                    &&& final(self).bounty_value_minimum == old(self).bounty_value_minimum
                    &&& same_proposals(*final(self), *old(self))
                    &&& same_tips(*final(self), *old(self))
                },
            },
    {
        let caller = ensure_signed(origin)?;
        let bounty = match self.bounties(bounty_id) {
            Some(b) => b,
            None => { return Err(Error::InvalidIndex); },
        };
        match bounty.status {
            BountyStatus::Active { expires } => {
                if expires > now && bounty.curator != caller {
                    return Err(Error::RequireCurator);
                }
            },
            _ => { return Err(Error::UnexpectedStatus); },
        }
        self.bounty_descriptions.remove(&bounty_id);
        self.bounties.remove(&bounty_id);
        let mut effects: Vec<Effect> = Vec::new();
        effects.push(Effect::Transfer {
            from: Account::Bounty(bounty_id),
            to: Account::Treasury,
            amount: balance,
            keep_alive: false,
        });
        effects.push(Effect::Notify(Event::BountyCanceled(bounty_id)));
        Ok(effects)
    }

    /// Extend the expiry of an active bounty, as its curator: it expires a
    /// full bounty duration from `now`, unless it already expires later.
    pub fn extend_bounty_expiry(&mut self, origin: Origin, bounty_id: BountyIndex, now: BlockNumber) -> (r: Result<
        Vec<Effect>,
        Error,
    >)
        requires
            old(self).wf(),
            now + old(self).config.bounty_duration <= BlockNumber::MAX,
        ensures
            final(self).wf(),
            match r {
                Err(e) => curator_refusal(*old(self), origin, bounty_id) == Some(e) && *final(self) == *old(self),
                Ok(effects) => {
                    &&& curator_refusal(*old(self), origin, bounty_id) is None
                    &&& old(self).bounties@[bounty_id].status matches BountyStatus::Active { expires }
                        && final(self).bounties@ == old(self).bounties@.insert(
                        bounty_id,
                        Bounty {
                            status: BountyStatus::Active {
                                expires: if expires >= now + old(self).config.bounty_duration {
                                    expires
                                } else {
                                    (now + old(self).config.bounty_duration) as BlockNumber
                                },
                            },
                            ..old(self).bounties@[bounty_id]
                        },
                    )
                    &&& effects@ == seq![Effect::Notify(Event::BountyExtended(bounty_id))]
                    &&& final(self).bounty_descriptions == old(self).bounty_descriptions
                    &&& final(self).bounty_approvals == old(self).bounty_approvals
                    &&& final(self).bounty_count == old(self).bounty_count
                    &&& final(self).bounty_value_minimum == old(self).bounty_value_minimum
                    &&& same_proposals(*final(self), *old(self))
                    &&& same_tips(*final(self), *old(self))
                },
            },
    {
        let curator = ensure_signed(origin)?;
        let bounty = match self.bounties(bounty_id) {
            Some(b) => b,
            None => { return Err(Error::InvalidIndex); },
        };
        match bounty.status {
            BountyStatus::Active { expires } => {
                if bounty.curator != curator {
                    return Err(Error::RequireCurator);
                }
                let renewed = now + self.config.bounty_duration;
                let expires = if expires >= renewed { expires } else { renewed };
                self.bounties.insert(bounty_id, Bounty { status: BountyStatus::Active { expires }, ..bounty });
                let mut effects: Vec<Effect> = Vec::new();
                effects.push(Effect::Notify(Event::BountyExtended(bounty_id)));
                Ok(effects)
            },
            _ => Err(Error::UnexpectedStatus),
        }
    }

    /// Set the least value of a bounty made from now on, as the approve
    /// authority.
    pub fn update_bounty_value_minimum(&mut self, origin: Origin, new_value: Balance) -> (r: Result<(), Error>)
        requires
            old(self).wf(),
        ensures
            final(self).wf(),
            r is Ok <==> origin == old(self).config.approve_origin,
            r is Err ==> r == Err::<(), Error>(Error::BadOrigin) && *final(self) == *old(self),
            r is Ok ==> final(self).bounty_value_minimum == new_value,
            final(self).bounty_count == old(self).bounty_count,
            final(self).bounties == old(self).bounties,
            final(self).bounty_descriptions == old(self).bounty_descriptions,
            final(self).bounty_approvals == old(self).bounty_approvals,
            same_proposals(*final(self), *old(self)),
            same_tips(*final(self), *old(self)),
    {
        ensure_origin(self.config.approve_origin, origin)?;
        self.bounty_value_minimum = new_value;
        Ok(())
    }
}

/// Why a request for a bounty is refused, if it is: it is not signed, or the
/// bounty that the signer asks for is refused.
pub open spec fn signed_bounty_refusal(m: Module, origin: Origin, q: BountyRequest) -> Option<Error> {
    if !(origin is Signed) {
        Some(Error::BadOrigin)
    } else {
        bounty_refusal(m, q)
    }
}

/// Why `origin` cannot decide on bounty `id`, if it cannot: it is not the
/// origin that holds the `authority`, there is no such bounty, or the bounty
/// is no longer just proposed.
pub open spec fn bounty_decision_refusal(m: Module, authority: Origin, origin: Origin, id: BountyIndex) -> Option<
    Error,
> {
    if origin != authority {
        Some(Error::BadOrigin)
    } else if !m.bounties@.contains_key(id) {
        Some(Error::InvalidIndex)
    } else if !(m.bounties@[id].status is Proposed) {
        Some(Error::UnexpectedStatus)
    } else {
        None
    }
}

/// Why `origin` cannot act as the curator of bounty `id`, if it cannot: it
/// is no account, there is no such bounty, the bounty is not active, or it is
/// another's to curate.
pub open spec fn curator_refusal(m: Module, origin: Origin, id: BountyIndex) -> Option<Error> {
    if !(origin is Signed) {
        Some(Error::BadOrigin)
    } else if !m.bounties@.contains_key(id) {
        Some(Error::InvalidIndex)
    } else if !(m.bounties@[id].status is Active) {
        Some(Error::UnexpectedStatus)
    } else if m.bounties@[id].curator != origin->Signed_0 {
        Some(Error::RequireCurator)
    } else {
        None
    }
}

/// Why `origin` cannot claim bounty `id` at block `now`, if it cannot: it is
/// no account, there is no such bounty, the bounty has not been awarded, or
/// its payout is still locked.
pub open spec fn claim_refusal(m: Module, origin: Origin, id: BountyIndex, now: BlockNumber) -> Option<Error> {
    if !(origin is Signed) {
        Some(Error::BadOrigin)
    } else if !m.bounties@.contains_key(id) {
        Some(Error::InvalidIndex)
    } else {
        match m.bounties@[id].status {
            BountyStatus::PendingPayout { beneficiary, unlock_at } => {
                if now < unlock_at { Some(Error::Premature) } else { None }
            },
            _ => Some(Error::UnexpectedStatus),
        }
    }
}

/// Why `origin` cannot cancel bounty `id` at block `now`, if it cannot: it is
/// no account, there is no such bounty, the bounty is not active, or it has
/// not expired and is another's to curate.
pub open spec fn cancel_refusal(m: Module, origin: Origin, id: BountyIndex, now: BlockNumber) -> Option<Error> {
    if !(origin is Signed) {
        Some(Error::BadOrigin)
    } else if !m.bounties@.contains_key(id) {
        Some(Error::InvalidIndex)
    } else {
        match m.bounties@[id].status {
            BountyStatus::Active { expires } => {
                if expires > now && m.bounties@[id].curator != origin->Signed_0 {
                    Some(Error::RequireCurator)
                } else {
                    None
                }
            },
            _ => Some(Error::UnexpectedStatus),
        }
    }
}

/// What the claim of `bounty` instructs, with `balance` in its account: the
/// fee to the curator, the rest to the beneficiary.
pub open spec fn claim_effects(id: BountyIndex, bounty: Bounty, beneficiary: AccountId, balance: Balance) -> Seq<
    Effect,
> {
    let payout = if balance >= bounty.fee { (balance - bounty.fee) as Balance } else { 0 };
    seq![
        Effect::Transfer {
            from: Account::Bounty(id),
            to: Account::User(bounty.curator),
            amount: bounty.fee,
            keep_alive: false,
        },
        Effect::Transfer {
            from: Account::Bounty(id),
            to: Account::User(beneficiary),
            amount: payout,
            keep_alive: false,
        },
        Effect::Notify(Event::BountyClaimed(id, payout, beneficiary)),
    ]
}

/// A sub-bounty is carved out of its parent. A request for one is granted
/// only if its fee and its value are below what the parent has at that
/// moment; the parent then has exactly that much less of each, and the
/// sub-bounty has what the parent lost.
pub proof fn lemma_sub_bounty_carved_out(m: Module, q: BountyRequest, now: BlockNumber)
    requires
        m.wf(),
        q.parent is Some,
        bounty_refusal(m, q) is None,
    ensures
        ({
            let id = q.parent->0;
            let parent = m.bounties@[id];
            let after = bounties_with(m, q, now);
            &&& q.fee < parent.fee
            &&& q.value < parent.value
            &&& after[id].fee == parent.fee - q.fee
            &&& after[id].value == parent.value - q.value
            &&& after[m.bounty_count].fee == q.fee
            &&& after[m.bounty_count].value == q.value
            &&& after[m.bounty_count].parent == q.parent
            &&& after[m.bounty_count].status is Active
            &&& after[id].fee + after[m.bounty_count].fee == parent.fee
            &&& after[id].value + after[m.bounty_count].value == parent.value
        }),
{
}

/// Who may cancel an active bounty: before it expires its curator and no one
/// else, from its expiry on any account.
pub proof fn lemma_cancel_authority(m: Module, id: BountyIndex, caller: AccountId, now: BlockNumber)
    requires
        m.bounties@.contains_key(id),
        m.bounties@[id].status is Active,
    ensures
        now < m.bounties@[id].status->expires ==> (cancel_refusal(m, Origin::Signed(caller), id, now) is None
            <==> caller == m.bounties@[id].curator),
        now < m.bounties@[id].status->expires && caller != m.bounties@[id].curator ==> cancel_refusal(
            m,
            Origin::Signed(caller),
            id,
            now,
        ) == Some(Error::RequireCurator),
        now >= m.bounties@[id].status->expires ==> cancel_refusal(m, Origin::Signed(caller), id, now) is None,
{
}

/// A chain that stays within a depth stays within every greater depth.
pub proof fn lemma_depth_within_grows(
    bounties: Map<BountyIndex, Bounty>,
    parent: Option<BountyIndex>,
    depth: nat,
    more: nat,
)
    requires
        depth <= more,
        depth_within(bounties, parent, depth),
    ensures
        depth_within(bounties, parent, more),
    decreases depth,
{
    if parent is Some {
        lemma_depth_within_grows(
            bounties,
            parent_of(bounties, parent->0),
            (depth - 1) as nat,
            (more - 1) as nat,
        );
    }
}

/// The bounties form a forest: the chain that goes up from a bounty, from
/// parent to parent, ends at a top-level bounty, after no more steps than the
/// bounty's index counts.
pub proof fn lemma_chain_ends(m: Module, id: BountyIndex)
    requires
        m.wf(),
    ensures
        depth_within(m.bounties@, Some(id), (id + 1) as nat),
    decreases id,
{
    let above = parent_of(m.bounties@, id);
    match above {
        Some(parent) => {
            lemma_chain_ends(m, parent);
            lemma_depth_within_grows(m.bounties@, Some(parent), (parent + 1) as nat, id as nat);
        },
        None => {},
    }
    assert(depth_within(m.bounties@, above, id as nat));
}

} // verus!
