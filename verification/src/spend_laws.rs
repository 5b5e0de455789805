//! What holds of every settlement: it pays once, within the pot, in the order
//! of approval, and burns only where nothing approved was passed over.

use vstd::prelude::*;
use crate::bounties::{Bounty, BountyStatus};
use crate::module::{awaiting_funds, Module};
use crate::proposals::Proposal;
use crate::spend::{
    after_bounties, after_proposals, bounty_funder, burn_of, closing_effects, fund_bounty, fund_proposal,
    lemma_bounty_budget_shrinks, lemma_budget_shrinks, proposal_funder, rollover, settled, Spending,
};
use crate::types::{Account, AccountId, Balance, BlockNumber, BountyIndex, Effect, Event, ProposalIndex};

verus! {

/// Whether every entry of `queue` names a proposal that `budget` does not cover.
pub open spec fn all_proposals_beyond(
    queue: Seq<ProposalIndex>,
    proposals: Map<ProposalIndex, Proposal>,
    budget: Balance,
) -> bool {
    forall|i: int| 0 <= i < queue.len() ==> proposals.contains_key(#[trigger] queue[i]) && proposals[queue[i]].value
        > budget
}

/// Whether every entry of `queue` names a bounty that `budget` does not cover.
pub open spec fn all_bounties_beyond(
    queue: Seq<BountyIndex>,
    bounties: Map<BountyIndex, Bounty>,
    budget: Balance,
) -> bool {
    forall|i: int| 0 <= i < queue.len() ==> bounties.contains_key(#[trigger] queue[i]) && bounties[queue[i]].value
        > budget
}

/// Whether `effects` holds nothing but what funding instructs: releases of
/// bonds, issues to those funded, and notifications.
pub open spec fn only_funding(effects: Seq<Effect>) -> bool {
    forall|i: int| 0 <= i < effects.len() ==> (#[trigger] effects[i] is Unreserve || effects[i] is Mint
        || effects[i] is Notify)
}

/// What draining the proposal queue keeps: the budget does not grow, the
/// bounties are not touched, the settlement is short exactly if an entry
/// stayed queued, the budget covers none of the entries that stayed, and
/// nothing but funding is instructed.
pub proof fn lemma_proposals_drained(queue: Seq<ProposalIndex>, s: Spending)
    requires
        all_proposals_beyond(s.kept, s.proposals, s.budget),
    ensures
        ({
            let r = queue.fold_left(s, proposal_funder());
            &&& r.budget <= s.budget
            &&& r.bounties == s.bounties
            &&& r.kept.len() >= s.kept.len()
            &&& r.missed == (s.missed || r.kept.len() > s.kept.len())
            &&& all_proposals_beyond(r.kept, r.proposals, r.budget)
            &&& only_funding(s.effects) ==> only_funding(r.effects)
        }),
    decreases queue.len(),
{
    if queue.len() > 0 {
        lemma_proposals_drained(queue.drop_last(), s);
        let before = queue.drop_last().fold_left(s, proposal_funder());
        let r = fund_proposal(before, queue.last());
        assert(all_proposals_beyond(r.kept, r.proposals, r.budget));
    }
}

/// What draining the bounty queue keeps, as for the proposal queue; the
/// proposals are not touched.
pub proof fn lemma_bounties_drained(queue: Seq<BountyIndex>, s: Spending, expires: BlockNumber)
    requires
        all_bounties_beyond(s.kept, s.bounties, s.budget),
    ensures
        ({
            let r = queue.fold_left(s, bounty_funder(expires));
            &&& r.budget <= s.budget
            &&& r.proposals == s.proposals
            &&& r.kept.len() >= s.kept.len()
            &&& r.missed == (s.missed || r.kept.len() > s.kept.len())
            &&& all_bounties_beyond(r.kept, r.bounties, r.budget)
            &&& only_funding(s.effects) ==> only_funding(r.effects)
        }),
    decreases queue.len(),
{
    if queue.len() > 0 {
        lemma_bounties_drained(queue.drop_last(), s, expires);
        let before = queue.drop_last().fold_left(s, bounty_funder(expires));
        let r = fund_bounty(before, queue.last(), expires);
        assert(all_bounties_beyond(r.kept, r.bounties, r.budget));
    }
}

/// A proposal queue whose entries the budget all fails to cover is left as it
/// is: nothing is paid and nothing is dropped.
pub proof fn lemma_proposals_beyond_stay(queue: Seq<ProposalIndex>, s: Spending)
    requires
        all_proposals_beyond(queue, s.proposals, s.budget),
    ensures
        queue.fold_left(s, proposal_funder()) == (Spending {
            missed: s.missed || queue.len() > 0,
            kept: s.kept + queue,
            ..s
        }),
    decreases queue.len(),
{
    if queue.len() > 0 {
        let front = queue.drop_last();
        assert(all_proposals_beyond(front, s.proposals, s.budget));
        lemma_proposals_beyond_stay(front, s);
        assert((s.kept + front).push(queue.last()) =~= s.kept + queue);
    }
}

/// A bounty queue whose entries the budget all fails to cover is left as it is.
pub proof fn lemma_bounties_beyond_stay(queue: Seq<BountyIndex>, s: Spending, expires: BlockNumber)
    requires
        all_bounties_beyond(queue, s.bounties, s.budget),
    ensures
        queue.fold_left(s, bounty_funder(expires)) == (Spending {
            missed: s.missed || queue.len() > 0,
            kept: s.kept + queue,
            ..s
        }),
    decreases queue.len(),
{
    if queue.len() > 0 {
        let front = queue.drop_last();
        assert(all_bounties_beyond(front, s.bounties, s.budget));
        lemma_bounties_beyond_stay(front, s, expires);
        assert((s.kept + front).push(queue.last()) =~= s.kept + queue);
    }
}

/// A settlement burns exactly when nothing approved was passed over for want
/// of budget, that is, when it leaves both queues empty. Where something was
/// passed over, no instruction burns anything and the whole budget that is left
/// rolls over.
pub proof fn lemma_burn_only_when_nothing_missed(
    before: Module,
    pot: Balance,
    now: BlockNumber,
    after: Module,
    effects: Seq<Effect>,
)
    requires
        settled(before, pot, now, after, effects),
    ensures
        after.approvals@.len() > 0 || after.bounty_approvals@.len() > 0 ==> forall|i: int|
            0 <= i < effects.len() ==> !(#[trigger] effects[i] is Burn),
        after.approvals@.len() == 0 && after.bounty_approvals@.len() == 0 ==> effects.len() >= 4
            && effects[effects.len() - 4] is Burn,
        rollover(before, pot, now) <= pot,
{
    let expires = (now + before.config.bounty_duration) as BlockNumber;
    let start = Spending {
        budget: pot,
        missed: false,
        proposals: before.proposals@,
        bounties: before.bounties@,
        kept: Seq::empty(),
        effects: seq![Effect::Notify(Event::Spending(pot))],
    };
    lemma_proposals_drained(before.approvals@, start);
    let s1 = after_proposals(before.approvals@, before.proposals@, before.bounties@, pot);
    let restart = Spending { kept: Seq::empty(), ..s1 };
    lemma_bounties_drained(before.bounty_approvals@, restart, expires);
}

/// A settlement pays once. If it is run again on what it left, with a pot
/// that is no more than what it rolled over, it funds nothing: proposals,
/// bounties and both queues stay as they are, and it instructs nothing but
/// the opening notification and the closing of a settlement.
pub proof fn lemma_settlement_pays_once(
    before: Module,
    pot: Balance,
    now: BlockNumber,
    after: Module,
    effects: Seq<Effect>,
    pot_again: Balance,
    now_again: BlockNumber,
    again: Module,
    effects_again: Seq<Effect>,
)
    requires
        settled(before, pot, now, after, effects),
        pot_again <= rollover(before, pot, now),
        settled(after, pot_again, now_again, again, effects_again),
    ensures
        again.proposals@ == after.proposals@,
        again.bounties@ == after.bounties@,
        again.approvals@ == after.approvals@,
        again.bounty_approvals@ == after.bounty_approvals@,
        effects_again == seq![Effect::Notify(Event::Spending(pot_again))] + closing_effects(
            after.config,
            pot_again,
            pot_again,
            after.approvals@.len() > 0 || after.bounty_approvals@.len() > 0,
        ),
{
    let expires = (now + before.config.bounty_duration) as BlockNumber;
    let start = Spending {
        budget: pot,
        missed: false,
        proposals: before.proposals@,
        bounties: before.bounties@,
        kept: Seq::empty(),
        effects: seq![Effect::Notify(Event::Spending(pot))],
    };
    lemma_proposals_drained(before.approvals@, start);
    let s1 = after_proposals(before.approvals@, before.proposals@, before.bounties@, pot);
    let restart = Spending { kept: Seq::empty(), ..s1 };
    lemma_bounties_drained(before.bounty_approvals@, restart, expires);

    let expires_again = (now_again + after.config.bounty_duration) as BlockNumber;
    let start_again = Spending {
        budget: pot_again,
        missed: false,
        proposals: after.proposals@,
        bounties: after.bounties@,
        kept: Seq::empty(),
        effects: seq![Effect::Notify(Event::Spending(pot_again))],
    };
    lemma_proposals_beyond_stay(after.approvals@, start_again);
    let t1 = after_proposals(after.approvals@, after.proposals@, after.bounties@, pot_again);
    let restart_again = Spending { kept: Seq::empty(), ..t1 };
    lemma_bounties_beyond_stay(after.bounty_approvals@, restart_again, expires_again);
}

/// What an instruction issues: the amount of a `Mint` or a `Burn`, and
/// nothing otherwise.
pub open spec fn issue_of(effect: Effect) -> int {
    match effect {
        Effect::Mint { to, amount } => amount as int,
        Effect::Burn { amount } => amount as int,
        _ => 0,
    }
}

/// What a list of instructions issues in all.
pub open spec fn issued(effects: Seq<Effect>) -> int
    decreases effects.len(),
{
    if effects.len() == 0 {
        0
    } else {
        issued(effects.drop_last()) + issue_of(effects.last())
    }
}

proof fn lemma_issued_push(effects: Seq<Effect>, effect: Effect)
    ensures
        issued(effects.push(effect)) == issued(effects) + issue_of(effect),
{
    assert(effects.push(effect).drop_last() =~= effects);
}

proof fn lemma_issued_by_funding(
    effects: Seq<Effect>,
    who: AccountId,
    bond: Balance,
    to: Account,
    amount: Balance,
    event: Event,
)
    ensures
        issued(
            effects + seq![
                Effect::Unreserve { who, amount: bond },
                Effect::Mint { to, amount },
                Effect::Notify(event),
            ],
        ) == issued(effects) + amount,
{
    let a = Effect::Unreserve { who, amount: bond };
    let b = Effect::Mint { to, amount };
    let c = Effect::Notify(event);
    assert(effects + seq![a, b, c] =~= effects.push(a).push(b).push(c));
    lemma_issued_push(effects, a);
    lemma_issued_push(effects.push(a), b);
    lemma_issued_push(effects.push(a).push(b), c);
}

proof fn lemma_proposals_issue_the_spent(queue: Seq<ProposalIndex>, s: Spending)
    ensures
        issued(queue.fold_left(s, proposal_funder()).effects) + queue.fold_left(s, proposal_funder()).budget
            == issued(s.effects) + s.budget,
    decreases queue.len(),
{
    if queue.len() > 0 {
        lemma_proposals_issue_the_spent(queue.drop_last(), s);
        let before = queue.drop_last().fold_left(s, proposal_funder());
        let index = queue.last();
        if before.proposals.contains_key(index) && before.proposals[index].value <= before.budget {
            let p = before.proposals[index];
            lemma_issued_by_funding(
                before.effects,
                p.proposer,
                p.bond,
                Account::User(p.beneficiary),
                p.value,
                Event::Awarded(index, p.value, p.beneficiary),
            );
        }
    }
}

proof fn lemma_bounties_issue_the_spent(queue: Seq<BountyIndex>, s: Spending, expires: BlockNumber)
    ensures
        issued(queue.fold_left(s, bounty_funder(expires)).effects) + queue.fold_left(
            s,
            bounty_funder(expires),
        ).budget == issued(s.effects) + s.budget,
    decreases queue.len(),
{
    if queue.len() > 0 {
        lemma_bounties_issue_the_spent(queue.drop_last(), s, expires);
        let before = queue.drop_last().fold_left(s, bounty_funder(expires));
        let index = queue.last();
        if before.bounties.contains_key(index) && before.bounties[index].value <= before.budget {
            let b = before.bounties[index];
            lemma_issued_by_funding(
                before.effects,
                b.proposer,
                b.bond,
                Account::Bounty(index),
                b.value,
                Event::BountyBecameActive(index),
            );
        }
    }
}

/// A settlement spends no more than the pot. What it issues to those it funds
/// and to the burn, and what it rolls over, add up to the pot; and it
/// withdraws from the pot, by its last instruction but one, exactly what it
/// issued.
pub proof fn lemma_settlement_conserves(
    before: Module,
    pot: Balance,
    now: BlockNumber,
    after: Module,
    effects: Seq<Effect>,
)
    requires
        settled(before, pot, now, after, effects),
    ensures
        0 <= rollover(before, pot, now) <= pot,
        issued(effects) + rollover(before, pot, now) == pot,
        effects.len() >= 3,
        effects[effects.len() - 2] == (Effect::Settle { amount: issued(effects) as Balance }),
        effects[effects.len() - 1] == Effect::Notify(Event::Rollover(rollover(before, pot, now) as Balance)),
        effects[0] == Effect::Notify(Event::Spending(pot)),
{
    let expires = (now + before.config.bounty_duration) as BlockNumber;
    let opening = seq![Effect::Notify(Event::Spending(pot))];
    let start = Spending {
        budget: pot,
        missed: false,
        proposals: before.proposals@,
        bounties: before.bounties@,
        kept: Seq::empty(),
        effects: opening,
    };
    assert(issued(opening) == 0) by {
        lemma_issued_push(Seq::empty(), Effect::Notify(Event::Spending(pot)));
    }
    lemma_proposals_issue_the_spent(before.approvals@, start);
    lemma_proposals_keep_opening(before.approvals@, start);
    let s1 = after_proposals(before.approvals@, before.proposals@, before.bounties@, pot);
    let restart = Spending { kept: Seq::empty(), ..s1 };
    lemma_bounties_issue_the_spent(before.bounty_approvals@, restart, expires);
    lemma_bounties_keep_opening(before.bounty_approvals@, restart, expires);
    let s2 = after_bounties(s1, before.bounty_approvals@, expires);
    lemma_budget_shrinks(before.approvals@, start);
    lemma_bounty_budget_shrinks(before.bounty_approvals@, restart, expires);
    let burn = burn_of(before.config, s2.budget, s2.missed) as Balance;
    let rest = (s2.budget - burn) as Balance;
    let settle = Effect::Settle { amount: (pot - rest) as Balance };
    let roll = Effect::Notify(Event::Rollover(rest));
    if s2.missed {
        assert(effects =~= s2.effects.push(settle).push(roll));
        lemma_issued_push(s2.effects, settle);
        lemma_issued_push(s2.effects.push(settle), roll);
    } else {
        let burning = Effect::Burn { amount: burn };
        let burnt = Effect::Notify(Event::Burnt(burn));
        assert(effects =~= s2.effects.push(burning).push(burnt).push(settle).push(roll));
        lemma_issued_push(s2.effects, burning);
        lemma_issued_push(s2.effects.push(burning), burnt);
        lemma_issued_push(s2.effects.push(burning).push(burnt), settle);
        lemma_issued_push(s2.effects.push(burning).push(burnt).push(settle), roll);
    }
}

proof fn lemma_proposals_keep_opening(queue: Seq<ProposalIndex>, s: Spending)
    requires
        s.effects.len() > 0,
    ensures
        queue.fold_left(s, proposal_funder()).effects.len() >= s.effects.len(),
        queue.fold_left(s, proposal_funder()).effects[0] == s.effects[0],
    decreases queue.len(),
{
    if queue.len() > 0 {
        lemma_proposals_keep_opening(queue.drop_last(), s);
    }
}

proof fn lemma_bounties_keep_opening(queue: Seq<BountyIndex>, s: Spending, expires: BlockNumber)
    requires
        s.effects.len() > 0,
    ensures
        queue.fold_left(s, bounty_funder(expires)).effects.len() >= s.effects.len(),
        queue.fold_left(s, bounty_funder(expires)).effects[0] == s.effects[0],
    decreases queue.len(),
{
    if queue.len() > 0 {
        lemma_bounties_keep_opening(queue.drop_last(), s, expires);
    }
}

/// A bounty once a settlement has funded it: active until `expires`, and
/// otherwise as it was.
pub open spec fn activated(bounty: Bounty, expires: BlockNumber) -> Bounty {
    Bounty { status: BountyStatus::Active { expires }, ..bounty }
}

proof fn lemma_bounties_activated(queue: Seq<BountyIndex>, s: Spending, expires: BlockNumber)
    requires
        awaiting_funds(queue, s.bounties),
    ensures
        ({
            let r = queue.fold_left(s, bounty_funder(expires));
            &&& r.bounties.dom() == s.bounties.dom()
            &&& forall|i: BountyIndex| #[trigger]
                s.bounties.contains_key(i) ==> r.bounties[i] == s.bounties[i] || (queue.contains(i)
                    && r.bounties[i] == activated(s.bounties[i], expires))
            &&& forall|i: BountyIndex| #[trigger]
                s.bounties.contains_key(i) && !queue.contains(i) ==> r.bounties[i] == s.bounties[i]
        }),
    decreases queue.len(),
{
    if queue.len() > 0 {
        let front = queue.drop_last();
        let last = queue.last();
        lemma_bounties_activated(front, s, expires);
        let before = front.fold_left(s, bounty_funder(expires));
        let r = fund_bounty(before, last, expires);
        assert forall|i: BountyIndex| #[trigger] s.bounties.contains_key(i) && !queue.contains(i) implies r.bounties[i]
            == s.bounties[i] by {}
    }
}

/// A settlement changes no bounty but those it funds, and funds none but
/// approved ones: every bounty is afterwards as it was, or it was approved and
/// queued and is now active for the bounty duration, and otherwise as it was.
/// No bounty comes or goes.
pub proof fn lemma_settlement_activates_approved(
    before: Module,
    pot: Balance,
    now: BlockNumber,
    after: Module,
    effects: Seq<Effect>,
)
    requires
        before.wf(),
        settled(before, pot, now, after, effects),
    ensures
        after.bounties@.dom() == before.bounties@.dom(),
        forall|i: BountyIndex| #[trigger]
            before.bounties@.contains_key(i) ==> after.bounties@[i] == before.bounties@[i] || (
            before.bounties@[i].status is Approved && before.bounty_approvals@.contains(i) && after.bounties@[i]
                == activated(before.bounties@[i], (now + before.config.bounty_duration) as BlockNumber)),
{
    let expires = (now + before.config.bounty_duration) as BlockNumber;
    let start = Spending {
        budget: pot,
        missed: false,
        proposals: before.proposals@,
        bounties: before.bounties@,
        kept: Seq::empty(),
        effects: seq![Effect::Notify(Event::Spending(pot))],
    };
    lemma_proposals_drained(before.approvals@, start);
    let s1 = after_proposals(before.approvals@, before.proposals@, before.bounties@, pot);
    let restart = Spending { kept: Seq::empty(), ..s1 };
    lemma_bounties_activated(before.bounty_approvals@, restart, expires);
    assert forall|i: BountyIndex| #[trigger] before.bounties@.contains_key(i) implies after.bounties@[i]
        == before.bounties@[i] || (before.bounties@[i].status is Approved && before.bounty_approvals@.contains(i)
        && after.bounties@[i] == activated(before.bounties@[i], expires)) by {}
}

proof fn lemma_proposals_paid(queue: Seq<ProposalIndex>, s: Spending)
    ensures
        ({
            let r = queue.fold_left(s, proposal_funder());
            &&& forall|i: ProposalIndex| #[trigger]
                r.proposals.contains_key(i) ==> s.proposals.contains_key(i) && r.proposals[i] == s.proposals[i]
            &&& forall|i: ProposalIndex| #[trigger]
                s.proposals.contains_key(i) && !r.proposals.contains_key(i) ==> queue.contains(i)
        }),
    decreases queue.len(),
{
    if queue.len() > 0 {
        let front = queue.drop_last();
        lemma_proposals_paid(front, s);
        assert(queue.fold_left(s, proposal_funder()) == fund_proposal(
            front.fold_left(s, proposal_funder()),
            queue.last(),
        ));
    }
}

/// A settlement changes no proposal: every proposal that is there afterwards
/// was there before and is as it was, and every proposal that is gone was
/// queued.
pub proof fn lemma_settlement_pays_approved(
    before: Module,
    pot: Balance,
    now: BlockNumber,
    after: Module,
    effects: Seq<Effect>,
)
    requires
        settled(before, pot, now, after, effects),
    ensures
        forall|i: ProposalIndex| #[trigger]
            after.proposals@.contains_key(i) ==> before.proposals@.contains_key(i) && after.proposals@[i]
                == before.proposals@[i],
        forall|i: ProposalIndex| #[trigger]
            before.proposals@.contains_key(i) && !after.proposals@.contains_key(i)
                ==> before.approvals@.contains(i),
{
    let expires = (now + before.config.bounty_duration) as BlockNumber;
    let start = Spending {
        budget: pot,
        missed: false,
        proposals: before.proposals@,
        bounties: before.bounties@,
        kept: Seq::empty(),
        effects: seq![Effect::Notify(Event::Spending(pot))],
    };
    lemma_proposals_paid(before.approvals@, start);
    let s1 = after_proposals(before.approvals@, before.proposals@, before.bounties@, pot);
    let restart = Spending { kept: Seq::empty(), ..s1 };
    lemma_bounties_drained(before.bounty_approvals@, restart, expires);
    assert forall|i: ProposalIndex| #[trigger]
        before.proposals@.contains_key(i) && !after.proposals@.contains_key(i) implies before.approvals@.contains(
        i,
    ) by {
        assert(start.proposals.contains_key(i));
    }
}

} // verus!
