//! Open tips in their earlier form, and their conversion.

use vstd::prelude::*;
use crate::module::{same_bounties, same_proposals, Module};
use crate::declarations::sorted_by_account;
use crate::tips::OpenTip;
use crate::types::{AccountId, Balance, BlockNumber, H256};

verus! {

/// An open tip as it was kept before a tipper could start one: the finder and
/// the deposit stand together, and only where the tip was reported.
#[derive(Clone, Debug, PartialEq, Eq)]
pub struct OldOpenTip {
    /// The hash of the reason for the tip.
    pub reason: H256,
    /// The account to be tipped.
    pub who: AccountId,
    /// The account who began this tip and the amount held on deposit.
    pub finder: Option<(AccountId, Balance)>,
    /// The block number at which this tip will close if `Some`.
    pub closes: Option<BlockNumber>,
    /// The members who have voted for this tip. Sorted by AccountId.
    pub tips: Vec<(AccountId, Balance)>,
}

/// An earlier tip in today's form. A tip without a finder gets the account
/// zero for one, no deposit, and pays no finder's fee.
pub open spec fn migrated(old: OldOpenTip) -> OpenTip {
    OpenTip {
        reason: old.reason,
        who: old.who,
        finder: match old.finder {
            Some(f) => f.0,
            None => 0,
        },
        deposit: match old.finder {
            Some(f) => f.1,
            None => 0,
        },
        closes: old.closes,
        tips: old.tips,
        finders_fee: old.finder is Some,
    }
}

/// The step of a migration: one earlier tip is kept under its name.
pub open spec fn keep_migrated() -> spec_fn(Map<H256, OpenTip>, (H256, OldOpenTip)) -> Map<H256, OpenTip> {
    |m: Map<H256, OpenTip>, entry: (H256, OldOpenTip)| m.insert(entry.0, migrated(entry.1))
}

impl OpenTip {
    /// Convert a tip from its earlier form.
    pub fn from_old(old: OldOpenTip) -> (tip: OpenTip)
        ensures
            tip == migrated(old),
    {
        let (finder, deposit, finders_fee) = match old.finder {
            Some((finder, deposit)) => (finder, deposit, true),
            None => (0, 0, false),
        };
        OpenTip {
            reason: old.reason,
            who: old.who,
            finder,
            deposit,
            closes: old.closes,
            tips: old.tips,
            finders_fee,
        }
    }
}

impl Module {
    /// Take over tips that were kept in their earlier form: each is converted
    /// and kept under its name, one after the other.
    pub fn migrate_retract_tip_for_tip_new(&mut self, old_tips: Vec<(H256, OldOpenTip)>)
        requires
            old(self).wf(),
            forall|i: int| 0 <= i < old_tips@.len() ==> sorted_by_account(#[trigger] old_tips@[i].1.tips@),
        ensures
            final(self).wf(),
            final(self).tips.map() == old_tips@.fold_left(old(self).tips.map(), keep_migrated()),
            final(self).reasons == old(self).reasons,
            same_proposals(*final(self), *old(self)),
            same_bounties(*final(self), *old(self)),
    {
        let ghost all = old_tips@;
        let ghost start = self.tips.map();
        let mut rest = old_tips;
        let mut done: usize = 0;
        let total = rest.len();
        while rest.len() > 0
            invariant
                self.wf(),
                done + rest@.len() == all.len(),
                total == all.len(),
                rest@ == all.skip(done as int),
                forall|i: int| 0 <= i < all.len() ==> sorted_by_account(#[trigger] all[i].1.tips@),
                self.tips.map() == all.take(done as int).fold_left(start, keep_migrated()),
                self.reasons == old(self).reasons,
                same_proposals(*self, *old(self)),
                same_bounties(*self, *old(self)),
            decreases rest@.len(),
        {
            let (hash, old_tip) = rest.remove(0);
            assert(all.take(done + 1).drop_last() =~= all.take(done as int));
            self.tips.insert(hash, OpenTip::from_old(old_tip));
            done += 1;
        }
    }
}

} // verus!
