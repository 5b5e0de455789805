//! The periodic settlement: what was approved is funded in the order of its
//! approval as far as the budget reaches, and part of what is left is burnt.

use vstd::prelude::*;
use crate::bounties::{Bounty, BountyStatus};
use crate::config::Config;
use crate::fraction::{permill_of, share, MILLION};
use crate::module::{awaiting_funds, Module};
use crate::proposals::Proposal;
use crate::types::{Account, Balance, BlockNumber, BountyIndex, Effect, Event, ProposalIndex};

verus! {

broadcast use vstd::std_specs::hash::group_hash_axioms;

/// How far a settlement has come.
pub struct Spending {
    /// The budget that is left.
    pub budget: Balance,
    /// Whether anything approved was passed over for want of budget.
    pub missed: bool,
    /// The proposals that are left.
    pub proposals: Map<ProposalIndex, Proposal>,
    /// The bounties as they stand.
    pub bounties: Map<BountyIndex, Bounty>,
    /// The entries of the queue at hand that stay queued, in order.
    pub kept: Seq<u32>,
    /// The instructions given so far, in order.
    pub effects: Seq<Effect>,
}

/// One entry of the proposal queue. A proposal that the budget covers is
/// paid and removed; one that it does not cover stays queued and marks the
/// settlement as short; an entry without a proposal is dropped.
pub open spec fn fund_proposal(s: Spending, index: ProposalIndex) -> Spending {
    if s.proposals.contains_key(index) {
        let p = s.proposals[index];
        if p.value <= s.budget {
            Spending {
                budget: (s.budget - p.value) as Balance,
                proposals: s.proposals.remove(index),
                effects: s.effects + seq![
                    Effect::Unreserve { who: p.proposer, amount: p.bond },
                    Effect::Mint { to: Account::User(p.beneficiary), amount: p.value },
                    Effect::Notify(Event::Awarded(index, p.value, p.beneficiary)),
                ],
                ..s
            }
        } else {
            Spending { missed: true, kept: s.kept.push(index), ..s }
        }
    } else {
        s
    }
}

/// One entry of the bounty queue. A bounty that the budget covers becomes
/// active until `expires` and has its account funded; one that it does not
/// cover stays queued and marks the settlement as short; an entry without a
/// bounty is dropped.
pub open spec fn fund_bounty(s: Spending, index: BountyIndex, expires: BlockNumber) -> Spending {
    if s.bounties.contains_key(index) {
        let b = s.bounties[index];
        if b.value <= s.budget {
            Spending {
                budget: (s.budget - b.value) as Balance,
                bounties: s.bounties.insert(
                    index,
                    Bounty { status: BountyStatus::Active { expires }, ..b },
                ),
                effects: s.effects + seq![
                    Effect::Unreserve { who: b.proposer, amount: b.bond },
                    Effect::Mint { to: Account::Bounty(index), amount: b.value },
                    Effect::Notify(Event::BountyBecameActive(index)),
                ],
                ..s
            }
        } else {
            Spending { missed: true, kept: s.kept.push(index), ..s }
        }
    } else {
        s
    }
}

/// `fund_proposal` as a function value.
pub open spec fn proposal_funder() -> spec_fn(Spending, ProposalIndex) -> Spending {
    |s: Spending, index: ProposalIndex| fund_proposal(s, index)
}

/// `fund_bounty` as a function value.
pub open spec fn bounty_funder(expires: BlockNumber) -> spec_fn(Spending, BountyIndex) -> Spending {
    |s: Spending, index: BountyIndex| fund_bounty(s, index, expires)
}

/// The settlement of a pot of `pot` once the proposal queue is drained.
pub open spec fn after_proposals(
    approvals: Seq<ProposalIndex>,
    proposals: Map<ProposalIndex, Proposal>,
    bounties: Map<BountyIndex, Bounty>,
    pot: Balance,
) -> Spending {
    approvals.fold_left(
        Spending {
            budget: pot,
            missed: false,
            proposals,
            bounties,
            kept: Seq::empty(),
            effects: seq![Effect::Notify(Event::Spending(pot))],
        },
        proposal_funder(),
    )
}

/// The settlement once the bounty queue is drained too. `before` is where the
/// proposals left it.
pub open spec fn after_bounties(
    before: Spending,
    bounty_approvals: Seq<BountyIndex>,
    expires: BlockNumber,
) -> Spending {
    bounty_approvals.fold_left(Spending { kept: Seq::empty(), ..before }, bounty_funder(expires))
}

/// What is burnt of a budget that is left over: the burnt fraction of it, and
/// nothing where something approved was passed over.
pub open spec fn burn_of(config: Config, budget: Balance, missed: bool) -> int {
    if missed {
        0
    } else {
        let part = share(config.burn as int, MILLION as int, budget as int);
        if part < budget { part } else { budget as int }
    }
}

/// The instructions that end a settlement: the burn, unless something approved
/// was passed over; the withdrawal of all that was issued; the roll-over.
pub open spec fn closing_effects(config: Config, pot: Balance, budget: Balance, missed: bool) -> Seq<Effect> {
    let burn = burn_of(config, budget, missed) as Balance;
    let rest = (budget - burn) as Balance;
    let burning = if missed {
        Seq::<Effect>::empty()
    } else {
        seq![Effect::Burn { amount: burn }, Effect::Notify(Event::Burnt(burn))]
    };
    burning + seq![
        Effect::Settle { amount: (pot - rest) as Balance },
        Effect::Notify(Event::Rollover(rest)),
    ]
}

/// Whether `after` and `effects` are what the settlement of a pot of `pot` at
/// block `now` makes of `before`.
pub open spec fn settled(
    before: Module,
    pot: Balance,
    now: BlockNumber,
    after: Module,
    effects: Seq<Effect>,
) -> bool {
    let s1 = after_proposals(before.approvals@, before.proposals@, before.bounties@, pot);
    let s2 = after_bounties(s1, before.bounty_approvals@, (now + before.config.bounty_duration) as BlockNumber);
    &&& after.proposals@ == s2.proposals
    &&& after.approvals@ == s1.kept
    &&& after.bounties@ == s2.bounties
    &&& after.bounty_approvals@ == s2.kept
    &&& effects == s2.effects + closing_effects(before.config, pot, s2.budget, s2.missed)
    &&& after.config == before.config
    &&& after.proposal_count == before.proposal_count
    &&& after.tips == before.tips
    &&& after.reasons == before.reasons
    &&& after.bounty_count == before.bounty_count
    &&& after.bounty_descriptions == before.bounty_descriptions
    &&& after.bounty_value_minimum == before.bounty_value_minimum
}

/// The budget that a settlement leaves in the pot.
pub open spec fn rollover(before: Module, pot: Balance, now: BlockNumber) -> int {
    let s1 = after_proposals(before.approvals@, before.proposals@, before.bounties@, pot);
    let s2 = after_bounties(s1, before.bounty_approvals@, (now + before.config.bounty_duration) as BlockNumber);
    s2.budget - burn_of(before.config, s2.budget, s2.missed)
}

impl Module {
    /// Spend some money: settle the approved proposals and bounties against a
    /// pot of `pot`, at block `now`.
    pub fn spend_funds(&mut self, pot: Balance, now: BlockNumber) -> (effects: Vec<Effect>)
        requires
            old(self).wf(),
            now + old(self).config.bounty_duration <= BlockNumber::MAX,
        ensures
            final(self).wf(),
            settled(*old(self), pot, now, *final(self), effects@),
    {
        let ghost queue = self.approvals@;
        let ghost start = Spending {
            budget: pot,
            missed: false,
            proposals: self.proposals@,
            bounties: self.bounties@,
            kept: Seq::empty(),
            effects: seq![Effect::Notify(Event::Spending(pot))],
        };
        let mut budget_remaining: Balance = pot;
        let mut missed_any = false;
        let mut effects: Vec<Effect> = Vec::new();
        effects.push(Effect::Notify(Event::Spending(pot)));

        let mut kept: Vec<ProposalIndex> = Vec::new();
        let mut i: usize = 0;
        while i < self.approvals.len()
            invariant
                i <= queue.len(),
                self.approvals@ == queue,
                self.wf(),
                self.config == old(self).config,
                self.proposal_count == old(self).proposal_count,
                self.tips == old(self).tips,
                self.reasons == old(self).reasons,
                self.bounty_count == old(self).bounty_count,
                self.bounties == old(self).bounties,
                self.bounty_descriptions == old(self).bounty_descriptions,
                self.bounty_approvals == old(self).bounty_approvals,
                self.bounty_value_minimum == old(self).bounty_value_minimum,
                queue.take(i as int).fold_left(start, proposal_funder()) == (Spending {
                    budget: budget_remaining,
                    missed: missed_any,
                    proposals: self.proposals@,
                    bounties: self.bounties@,
                    kept: kept@,
                    effects: effects@,
                }),
            decreases queue.len() - i,
        {
            let index = self.approvals[i];
            let ghost before = queue.take(i as int).fold_left(start, proposal_funder());
            assert(queue.take(i + 1).drop_last() == queue.take(i as int));
            let found: Option<Proposal> = match self.proposals.get(&index) {
                Some(p) => Some(*p),
                None => None,
            };
            match found {
                Some(p) => {
                    if p.value <= budget_remaining {
                        budget_remaining = budget_remaining - p.value;
                        self.proposals.remove(&index);
                        effects.push(Effect::Unreserve { who: p.proposer, amount: p.bond });
                        effects.push(Effect::Mint { to: Account::User(p.beneficiary), amount: p.value });
                        effects.push(Effect::Notify(Event::Awarded(index, p.value, p.beneficiary)));
                    } else {
                        missed_any = true;
                        kept.push(index);
                    }
                },
                None => {},
            }
            proof {
                let next = fund_proposal(before, index);
                assert(next.effects =~= effects@);
            }
            i += 1;
        }
        self.approvals = kept;

        let ghost s1 = after_proposals(queue, old(self).proposals@, old(self).bounties@, pot);
        let ghost bounty_queue = self.bounty_approvals@;
        let ghost restart = Spending { kept: Seq::empty(), ..s1 };
        let expires: BlockNumber = now + self.config.bounty_duration;
        let mut waiting: Vec<BountyIndex> = Vec::new();
        core::mem::swap(&mut self.bounty_approvals, &mut waiting);
        let mut kept_bounties: Vec<BountyIndex> = Vec::new();
        let mut j: usize = 0;
        while j < waiting.len()
            invariant
                j <= bounty_queue.len(),
                waiting@ == bounty_queue,
                self.bounty_approvals@.len() == 0,
                self.wf(),
                bounty_queue.no_duplicates(),
                forall|k: int| j <= k < bounty_queue.len() ==> self.bounties@.contains_key(#[trigger] bounty_queue[k])
                    && self.bounties@[bounty_queue[k]].status is Approved,
                awaiting_funds(kept_bounties@, self.bounties@),
                forall|a: int, k: int| 0 <= a < kept_bounties@.len() && j <= k < bounty_queue.len()
                    ==> kept_bounties@[a] != bounty_queue[k],
                self.config == old(self).config,
                self.proposal_count == old(self).proposal_count,
                self.tips == old(self).tips,
                self.reasons == old(self).reasons,
                self.bounty_count == old(self).bounty_count,
                self.bounty_descriptions == old(self).bounty_descriptions,
                self.bounty_value_minimum == old(self).bounty_value_minimum,
                self.proposals@ == s1.proposals,
                self.approvals@ == s1.kept,
                bounty_queue.take(j as int).fold_left(restart, bounty_funder(expires)) == (Spending {
                    budget: budget_remaining,
                    missed: missed_any,
                    proposals: self.proposals@,
                    bounties: self.bounties@,
                    kept: kept_bounties@,
                    effects: effects@,
                }),
            decreases bounty_queue.len() - j,
        {
            let index = waiting[j];
            let ghost before = bounty_queue.take(j as int).fold_left(restart, bounty_funder(expires));
            assert(bounty_queue.take(j + 1).drop_last() == bounty_queue.take(j as int));
            let found: Option<Bounty> = match self.bounties.get(&index) {
                Some(b) => Some(*b),
                None => None,
            };
            match found {
                Some(b) => {
                    if b.value <= budget_remaining {
                        budget_remaining = budget_remaining - b.value;
                        self.bounties.insert(
                            index,
                            Bounty { status: BountyStatus::Active { expires }, ..b },
                        );
                        effects.push(Effect::Unreserve { who: b.proposer, amount: b.bond });
                        effects.push(Effect::Mint { to: Account::Bounty(index), amount: b.value });
                        effects.push(Effect::Notify(Event::BountyBecameActive(index)));
                    } else {
                        missed_any = true;
                        kept_bounties.push(index);
                    }
                },
                None => {},
            }
            proof {
                let next = fund_bounty(before, index, expires);
                assert(next.effects =~= effects@);
            }
            j += 1;
        }
        self.bounty_approvals = kept_bounties;

        let ghost drained = effects@;
        if !missed_any {
            let part = permill_of(self.config.burn, budget_remaining);
            let burn = if part < budget_remaining { part } else { budget_remaining };
            budget_remaining = budget_remaining - burn;
            effects.push(Effect::Burn { amount: burn });
            effects.push(Effect::Notify(Event::Burnt(burn)));
        }
        proof {
            lemma_budget_shrinks(queue, start);
            lemma_bounty_budget_shrinks(bounty_queue, restart, expires);
        }
        effects.push(Effect::Settle { amount: pot - budget_remaining });
        effects.push(Effect::Notify(Event::Rollover(budget_remaining)));
        assert(effects@ =~= drained + closing_effects(
            self.config,
            pot,
            after_bounties(s1, bounty_queue, expires).budget,
            after_bounties(s1, bounty_queue, expires).missed,
        ));
        effects
    }

    /// What a new block asks of the treasury: a settlement where the height `n`
    /// of the block is a multiple of the spend period, and nothing otherwise.
    /// `now` is the block number that the host reports while the block begins,
    /// from which the bounties that are funded count their duration.
    pub fn on_initialize(&mut self, n: BlockNumber, now: BlockNumber, pot: Balance) -> (effects: Vec<Effect>)
        requires
            old(self).wf(),
            now + old(self).config.bounty_duration <= BlockNumber::MAX,
        ensures
            final(self).wf(),
            n % old(self).config.spend_period == 0 ==> settled(*old(self), pot, now, *final(self), effects@),
            n % old(self).config.spend_period != 0 ==> *final(self) == *old(self) && effects@.len() == 0,
    {
        if n % self.config.spend_period == 0 {
            self.spend_funds(pot, now)
        } else {
            Vec::new()
        }
    }
}

/// Draining the proposal queue never adds to the budget.
pub proof fn lemma_budget_shrinks(queue: Seq<ProposalIndex>, s: Spending)
    ensures
        queue.fold_left(s, proposal_funder()).budget <= s.budget,
    decreases queue.len(),
{
    if queue.len() > 0 {
        lemma_budget_shrinks(queue.drop_last(), s);
    }
}

/// Draining the bounty queue never adds to the budget.
pub proof fn lemma_bounty_budget_shrinks(queue: Seq<BountyIndex>, s: Spending, expires: BlockNumber)
    ensures
        queue.fold_left(s, bounty_funder(expires)).budget <= s.budget,
    decreases queue.len(),
{
    if queue.len() > 0 {
        lemma_bounty_budget_shrinks(queue.drop_last(), s, expires);
    }
}

} // verus!
