//! What a host keeps of a treasury between operations, and the treasury
//! rebuilt from it.

use std::collections::HashMap;
use vstd::prelude::*;
use crate::bounties::{Bounty, BountyStatus};
use crate::config::Config;
use crate::module::{after_parent, awaiting_funds, Module};
use crate::proposals::Proposal;
use crate::table::Table;
use crate::declarations::{is_sorted_by_account, sorted_by_account};
use crate::tips::OpenTip;
use crate::types::{Balance, BountyIndex, ProposalIndex, H256};

verus! {

broadcast use vstd::std_specs::hash::group_hash_axioms;

/// Everything that a treasury keeps between operations, as lists of entries.
pub struct Kept {
    /// Number of proposals that have been made.
    pub proposal_count: ProposalIndex,
    /// Proposals that have been made, each with its index.
    pub proposals: Vec<(ProposalIndex, Proposal)>,
    /// Proposal indices that have been approved but not yet awarded.
    pub approvals: Vec<ProposalIndex>,
    /// Tips that are not yet completed, each with its name.
    pub tips: Vec<(H256, OpenTip)>,
    /// The reasons of the open tips, each with its digest.
    pub reasons: Vec<(H256, Vec<u8>)>,
    /// Number of bounty proposals that have been made.
    pub bounty_count: BountyIndex,
    /// Bounties that have been made, each with its index.
    pub bounties: Vec<(BountyIndex, Bounty)>,
    /// The descriptions of the bounties, each with its index.
    pub bounty_descriptions: Vec<(BountyIndex, Vec<u8>)>,
    /// Bounty indices that have been approved but not yet funded.
    pub bounty_approvals: Vec<BountyIndex>,
    /// Minimum value for a bounty or sub-bounty.
    pub bounty_value_minimum: Balance,
}

/// The map that a list of entries stands for; of two entries with one key the
/// later counts.
pub open spec fn entries<K, V>(list: Seq<(K, V)>) -> Map<K, V> {
    list.fold_left(Map::empty(), |m: Map<K, V>, e: (K, V)| m.insert(e.0, e.1))
}

/// Whether a treasury can be made of `kept`: the parameters are valid, no
/// proposal or bounty has an index that is still to be given out, every
/// sub-bounty has a greater index than its parent, every description belongs
/// to a bounty, the bounty queue holds approved bounties and none of them
/// twice, and the declarations of every tip are sorted by account.
pub open spec fn restorable(config: Config, kept: Kept) -> bool {
    &&& config.valid()
    &&& forall|i: int| 0 <= i < kept.proposals@.len() ==> (#[trigger] kept.proposals@[i]).0 < kept.proposal_count
    &&& forall|i: int| 0 <= i < kept.bounties@.len() ==> (#[trigger] kept.bounties@[i]).0 < kept.bounty_count
    &&& forall|i: int| 0 <= i < kept.bounties@.len() ==> after_parent(
        (#[trigger] kept.bounties@[i]).0,
        kept.bounties@[i].1,
    )
    &&& forall|i: int| 0 <= i < kept.bounty_descriptions@.len() ==> entries(kept.bounties@).contains_key(
        (#[trigger] kept.bounty_descriptions@[i]).0,
    )
    &&& awaiting_funds(kept.bounty_approvals@, entries(kept.bounties@))
    &&& forall|i: int| 0 <= i < kept.tips@.len() ==> sorted_by_account((#[trigger] kept.tips@[i]).1.tips@)
}

impl Module {
    /// The treasury with the parameters `config` and the state `kept`, or
    /// `None` where no treasury can be made of them.
    pub fn restore(config: Config, kept: Kept) -> (r: Option<Module>)
        ensures
            r is Some <==> restorable(config, kept),
            r is Some ==> ({
                let m = r->0;
                &&& m.wf()
                &&& m.config == config
                &&& m.proposal_count == kept.proposal_count
                &&& m.proposals@ == entries(kept.proposals@)
                &&& m.approvals@ == kept.approvals@
                &&& m.tips.map() == entries(kept.tips@)
                &&& m.reasons.map() == entries(kept.reasons@)
                &&& m.bounty_count == kept.bounty_count
                &&& m.bounties@ == entries(kept.bounties@)
                &&& m.bounty_descriptions@ == entries(kept.bounty_descriptions@)
                &&& m.bounty_approvals@ == kept.bounty_approvals@
                &&& m.bounty_value_minimum == kept.bounty_value_minimum
            }),
    {
        if !config.is_valid() {
            return None;
        }
        let ghost all = kept;
        let Kept {
            proposal_count,
            proposals: proposal_list,
            approvals,
            tips: tip_list,
            reasons: reason_list,
            bounty_count,
            bounties: bounty_list,
            bounty_descriptions: description_list,
            bounty_approvals,
            bounty_value_minimum,
        } = kept;

        let mut proposals: HashMap<ProposalIndex, Proposal> = HashMap::new();
        let mut i: usize = 0;
        while i < proposal_list.len()
            invariant
                i <= proposal_list@.len(),
                all == kept,
                proposal_list@ == all.proposals@,
                proposal_count == all.proposal_count,
                proposals@ == entries(proposal_list@.take(i as int)),
                forall|j: int| 0 <= j < i ==> (#[trigger] proposal_list@[j]).0 < proposal_count,
                forall|k: ProposalIndex| proposals@.contains_key(k) ==> k < proposal_count,
            decreases proposal_list@.len() - i,
        {
            let (index, proposal) = proposal_list[i];
            if index >= proposal_count {
                return None;
            }
            assert(proposal_list@.take(i + 1).drop_last() =~= proposal_list@.take(i as int));
            proposals.insert(index, proposal);
            i += 1;
        }

        let mut bounties: HashMap<BountyIndex, Bounty> = HashMap::new();
        let mut i: usize = 0;
        while i < bounty_list.len()
            invariant
                i <= bounty_list@.len(),
                all == kept,
                bounty_list@ == all.bounties@,
                bounty_count == all.bounty_count,
                bounties@ == entries(bounty_list@.take(i as int)),
                forall|j: int| 0 <= j < i ==> (#[trigger] bounty_list@[j]).0 < bounty_count,
                forall|j: int| 0 <= j < i ==> after_parent((#[trigger] bounty_list@[j]).0, bounty_list@[j].1),
                forall|k: BountyIndex| bounties@.contains_key(k) ==> k < bounty_count,
                forall|k: BountyIndex| #[trigger] bounties@.contains_key(k) ==> after_parent(k, bounties@[k]),
            decreases bounty_list@.len() - i,
        {
            let (index, bounty) = bounty_list[i];
            if index >= bounty_count {
                return None;
            }
            let follows = match bounty.parent {
                Some(parent) => parent < index,
                None => true,
            };
            if !follows {
                return None;
            }
            assert(bounty_list@.take(i + 1).drop_last() =~= bounty_list@.take(i as int));
            bounties.insert(index, bounty);
            i += 1;
        }

        let mut j: usize = 0;
        while j < bounty_approvals.len()
            invariant
                j <= bounty_approvals@.len(),
                all == kept,
                bounty_approvals@ == all.bounty_approvals@,
                bounties@ == entries(all.bounties@),
                awaiting_funds(bounty_approvals@.take(j as int), bounties@),
            decreases bounty_approvals@.len() - j,
        {
            let index = bounty_approvals[j];
            let approved = match bounties.get(&index) {
                Some(bounty) => match bounty.status {
                    BountyStatus::Approved => true,
                    _ => false,
                },
                None => false,
            };
            if !approved {
                return None;
            }
            let mut k: usize = 0;
            while k < j
                invariant
                    k <= j < bounty_approvals@.len(),
                    all == kept,
                    bounty_approvals@ == all.bounty_approvals@,
                    index == bounty_approvals@[j as int],
                    forall|a: int| 0 <= a < k ==> bounty_approvals@[a] != index,
                decreases j - k,
            {
                if bounty_approvals[k] == index {
                    return None;
                }
                k += 1;
            }
            assert(awaiting_funds(bounty_approvals@.take(j + 1), bounties@));
            j += 1;
        }
        assert(bounty_approvals@.take(bounty_approvals@.len() as int) =~= bounty_approvals@);

        let mut bounty_descriptions: HashMap<BountyIndex, Vec<u8>> = HashMap::new();
        let ghost descriptions = description_list@;
        let mut rest = description_list;
        let total = rest.len();
        let mut done: usize = 0;
        while rest.len() > 0
            invariant
                done + rest@.len() == descriptions.len(),
                total == descriptions.len(),
                all == kept,
                descriptions == all.bounty_descriptions@,
                bounties@ == entries(all.bounties@),
                rest@ == descriptions.skip(done as int),
                bounty_descriptions@ == entries(descriptions.take(done as int)),
                forall|j: int| 0 <= j < done ==> bounties@.contains_key((#[trigger] descriptions[j]).0),
                forall|k: BountyIndex| #[trigger] bounty_descriptions@.contains_key(k) ==> bounties@.contains_key(k),
            decreases rest@.len(),
        {
            let (index, description) = rest.remove(0);
            assert(descriptions.take(done + 1).drop_last() =~= descriptions.take(done as int));
            if !bounties.contains_key(&index) {
                return None;
            }
            bounty_descriptions.insert(index, description);
            done += 1;
        }

        let mut tips: Table<OpenTip> = Table::new();
        let ghost tip_entries = tip_list@;
        let mut rest = tip_list;
        let total = rest.len();
        let mut done: usize = 0;
        while rest.len() > 0
            invariant
                tips.wf(),
                done + rest@.len() == tip_entries.len(),
                total == tip_entries.len(),
                all == kept,
                tip_entries == all.tips@,
                rest@ == tip_entries.skip(done as int),
                tips.map() == entries(tip_entries.take(done as int)),
                forall|j: int| 0 <= j < done ==> sorted_by_account((#[trigger] tip_entries[j]).1.tips@),
                forall|h: H256| #[trigger] tips.map().contains_key(h) ==> sorted_by_account(tips.map()[h].tips@),
            decreases rest@.len(),
        {
            let (hash, tip) = rest.remove(0);
            assert(tip_entries.take(done + 1).drop_last() =~= tip_entries.take(done as int));
            if !is_sorted_by_account(&tip.tips) {
                return None;
            }
            tips.insert(hash, tip);
            done += 1;
        }

        let mut reasons: Table<Vec<u8>> = Table::new();
        let ghost reason_entries = reason_list@;
        let mut rest = reason_list;
        let total = rest.len();
        let mut done: usize = 0;
        while rest.len() > 0
            invariant
                reasons.wf(),
                done + rest@.len() == reason_entries.len(),
                total == reason_entries.len(),
                rest@ == reason_entries.skip(done as int),
                reasons.map() == entries(reason_entries.take(done as int)),
            decreases rest@.len(),
        {
            let (hash, reason) = rest.remove(0);
            assert(reason_entries.take(done + 1).drop_last() =~= reason_entries.take(done as int));
            reasons.insert(hash, reason);
            done += 1;
        }

        Some(
            Module {
                config,
                proposal_count,
                proposals,
                approvals,
                tips,
                reasons,
                bounty_count,
                bounties,
                bounty_descriptions,
                bounty_approvals,
                bounty_value_minimum,
            },
        )
    }
}

/// One more entry at the end of a list puts its value under its key.
pub proof fn lemma_entries_push<K, V>(list: Seq<(K, V)>, key: K, val: V)
    ensures
        entries(list.push((key, val))) == entries(list).insert(key, val),
{
    assert(list.push((key, val)).drop_last() =~= list);
}

/// A list that holds no key twice stands for the map that has each of its
/// entries and nothing else.
pub proof fn lemma_entries_of_distinct<K, V>(list: Seq<(K, V)>)
    requires
        forall|i: int, j: int| 0 <= i < j < list.len() ==> list[i].0 != list[j].0,
    ensures
        forall|i: int| 0 <= i < list.len() ==> entries(list).contains_key((#[trigger] list[i]).0) && entries(
            list,
        )[list[i].0] == list[i].1,
        forall|k: K| #[trigger] entries(list).contains_key(k) ==> exists|i: int| 0 <= i < list.len() && list[i].0 == k,
    decreases list.len(),
{
    if list.len() > 0 {
        let front = list.drop_last();
        lemma_entries_of_distinct(front);
        assert(entries(list) == entries(front).insert(list.last().0, list.last().1));
        assert forall|i: int| 0 <= i < list.len() implies entries(list).contains_key((#[trigger] list[i]).0)
            && entries(list)[list[i].0] == list[i].1 by {
            if i < list.len() - 1 {
                assert(front[i] == list[i]);
            }
        }
        assert forall|k: K| #[trigger] entries(list).contains_key(k) implies exists|i: int|
            0 <= i < list.len() && list[i].0 == k by {
            if k != list.last().0 {
                let i = choose|i: int| 0 <= i < front.len() && front[i].0 == k;
                assert(list[i].0 == k);
            } else {
                assert(list[list.len() - 1].0 == k);
            }
        }
    }
}

impl<V> Table<V> {
    /// The entries of the table, in the order in which their keys came.
    pub fn into_entries(self) -> (list: Vec<(H256, V)>)
        requires
            self.wf(),
        ensures
            list@.len() == self.keys@.len(),
            forall|i: int| 0 <= i < list@.len() ==> #[trigger] list@[i] == (self.keys@[i], self.vals@[i]),
            entries(list@) == self.map(),
    {
        let ghost whole = self;
        let Table { keys, vals } = self;
        let mut rest = vals;
        let mut list: Vec<(H256, V)> = Vec::new();
        let mut i: usize = 0;
        while i < keys.len()
            invariant
                i <= keys@.len(),
                keys@ == whole.keys@,
                whole.wf(),
                rest@ == whole.vals@.skip(i as int),
                list@.len() == i,
                forall|j: int| 0 <= j < i ==> #[trigger] list@[j] == (whole.keys@[j], whole.vals@[j]),
            decreases keys@.len() - i,
        {
            let val = rest.remove(0);
            assert(rest@ =~= whole.vals@.skip(i + 1));
            list.push((keys[i], val));
            i += 1;
        }
        proof {
            lemma_entries_of_distinct(list@);
            assert forall|k: H256| #[trigger] whole.has(k) implies entries(list@).contains_key(k) && entries(list@)[k]
                == whole.at(k) by {
                let j = whole.keys@.index_of(k);
                assert(list@[j].0 == k);
            }
            assert forall|k: H256| #[trigger] entries(list@).contains_key(k) implies whole.has(k) by {
                let j = choose|j: int| 0 <= j < list@.len() && list@[j].0 == k;
                assert(whole.keys@[j] == k);
            }
            assert(entries(list@) =~= whole.map());
        }
        list
    }
}

/// Whether `kept` holds all of a treasury: its counters, queues and floor as
/// they are, and its proposals, tips, reasons, bounties and descriptions as
/// lists of entries.
pub open spec fn keeps(kept: Kept, m: Module) -> bool {
    &&& kept.proposal_count == m.proposal_count
    &&& entries(kept.proposals@) == m.proposals@
    &&& kept.approvals@ == m.approvals@
    &&& entries(kept.tips@) == m.tips.map()
    &&& entries(kept.reasons@) == m.reasons.map()
    &&& kept.bounty_count == m.bounty_count
    &&& entries(kept.bounties@) == m.bounties@
    &&& entries(kept.bounty_descriptions@) == m.bounty_descriptions@
    &&& kept.bounty_approvals@ == m.bounty_approvals@
    &&& kept.bounty_value_minimum == m.bounty_value_minimum
}

impl Module {
    /// What a host has to keep of the treasury: `restore` makes the same
    /// treasury of it again.
    pub fn keep(self) -> (kept: Kept)
        requires
            self.wf(),
        ensures
            keeps(kept, self),
            restorable(self.config, kept),
    {
        let ghost whole = self;
        let Module {
            config: _,
            proposal_count,
            proposals,
            approvals,
            tips,
            reasons,
            bounty_count,
            bounties,
            bounty_descriptions,
            bounty_approvals,
            bounty_value_minimum,
        } = self;

        let mut proposal_list: Vec<(ProposalIndex, Proposal)> = Vec::new();
        let mut i: ProposalIndex = 0;
        while i < proposal_count
            invariant
                i <= proposal_count,
                proposals@ == whole.proposals@,
                forall|k: ProposalIndex| #[trigger]
                    entries(proposal_list@).contains_key(k) <==> proposals@.contains_key(k) && k < i,
                forall|k: ProposalIndex| #[trigger]
                    entries(proposal_list@).contains_key(k) ==> entries(proposal_list@)[k] == proposals@[k],
                forall|j: int| 0 <= j < proposal_list@.len() ==> (#[trigger] proposal_list@[j]).0 < proposal_count,
            decreases proposal_count - i,
        {
            match proposals.get(&i) {
                Some(proposal) => {
                    proof {
                        lemma_entries_push(proposal_list@, i, *proposal);
                    }
                    proposal_list.push((i, *proposal));
                },
                None => {},
            }
            i += 1;
        }
        assert(entries(proposal_list@) =~= whole.proposals@);

        let mut bounty_list: Vec<(BountyIndex, Bounty)> = Vec::new();
        let mut i: BountyIndex = 0;
        while i < bounty_count
            invariant
                i <= bounty_count,
                bounties@ == whole.bounties@,
                whole.wf(),
                forall|k: BountyIndex| #[trigger]
                    entries(bounty_list@).contains_key(k) <==> bounties@.contains_key(k) && k < i,
                forall|k: BountyIndex| #[trigger]
                    entries(bounty_list@).contains_key(k) ==> entries(bounty_list@)[k] == bounties@[k],
                forall|j: int| 0 <= j < bounty_list@.len() ==> (#[trigger] bounty_list@[j]).0 < bounty_count,
                forall|j: int| 0 <= j < bounty_list@.len() ==> after_parent(
                    (#[trigger] bounty_list@[j]).0,
                    bounty_list@[j].1,
                ),
            decreases bounty_count - i,
        {
            match bounties.get(&i) {
                Some(bounty) => {
                    proof {
                        lemma_entries_push(bounty_list@, i, *bounty);
                    }
                    bounty_list.push((i, *bounty));
                },
                None => {},
            }
            i += 1;
        }
        assert(entries(bounty_list@) =~= whole.bounties@);

        let mut descriptions = bounty_descriptions;
        let mut description_list: Vec<(BountyIndex, Vec<u8>)> = Vec::new();
        let mut i: BountyIndex = 0;
        while i < bounty_count
            invariant
                i <= bounty_count,
                whole.wf(),
                bounty_count == whole.bounty_count,
                forall|k: BountyIndex| #[trigger]
                    descriptions@.contains_key(k) <==> whole.bounty_descriptions@.contains_key(k) && k >= i,
                forall|k: BountyIndex| #[trigger]
                    descriptions@.contains_key(k) ==> descriptions@[k] == whole.bounty_descriptions@[k],
                forall|k: BountyIndex| #[trigger]
                    entries(description_list@).contains_key(k) <==> whole.bounty_descriptions@.contains_key(k) && k < i,
                forall|k: BountyIndex| #[trigger]
                    entries(description_list@).contains_key(k) ==> entries(description_list@)[k]
                        == whole.bounty_descriptions@[k],
                forall|j: int| 0 <= j < description_list@.len() ==> whole.bounty_descriptions@.contains_key(
                    (#[trigger] description_list@[j]).0,
                ),
            decreases bounty_count - i,
        {
            match descriptions.remove(&i) {
                Some(description) => {
                    proof {
                        lemma_entries_push(description_list@, i, description);
                    }
                    description_list.push((i, description));
                },
                None => {},
            }
            i += 1;
        }
        assert(entries(description_list@) =~= whole.bounty_descriptions@);

        let tip_list = tips.into_entries();
        let reason_list = reasons.into_entries();
        let kept = Kept {
            proposal_count,
            proposals: proposal_list,
            approvals,
            tips: tip_list,
            reasons: reason_list,
            bounty_count,
            bounties: bounty_list,
            bounty_descriptions: description_list,
            bounty_approvals,
            bounty_value_minimum,
        };
        proof {
            assert forall|j: int| 0 <= j < kept.tips@.len() implies sorted_by_account(
                (#[trigger] kept.tips@[j]).1.tips@,
            ) by {
                assert(whole.tips.map().contains_key(kept.tips@[j].0));
            }
        }
        kept
    }
}

} // verus!
