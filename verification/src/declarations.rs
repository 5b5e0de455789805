//! The declarations on a tip: kept in the order of the accounts that made
//! them, and counted only while their accounts are tippers.

use vstd::prelude::*;
use crate::types::{AccountId, Balance};

verus! {

/// Whether the declarations are in strictly increasing order of account.
pub open spec fn sorted_by_account(tips: Seq<(AccountId, Balance)>) -> bool {
    forall|i: int, j: int| 0 <= i < j < tips.len() ==> tips[i].0 < tips[j].0
}

/// Whether the declarations are in strictly increasing order of account.
pub fn is_sorted_by_account(tips: &Vec<(AccountId, Balance)>) -> (b: bool)
    ensures
        b == sorted_by_account(tips@),
{
    let mut i: usize = 1;
    while i < tips.len()
        invariant
            1 <= i,
            forall|a: int, b: int| 0 <= a < b < i && b < tips@.len() ==> tips@[a].0 < tips@[b].0,
        decreases tips@.len() - i,
    {
        if tips[i - 1].0 >= tips[i].0 {
            return false;
        }
        i += 1;
    }
    true
}

/// Whether `who` is one of the tippers.
pub fn is_tipper(members: &Vec<AccountId>, who: AccountId) -> (b: bool)
    ensures
        b == members@.contains(who),
{
    let mut i: usize = 0;
    while i < members.len()
        invariant
            i <= members@.len(),
            forall|j: int| 0 <= j < i ==> members@[j] != who,
        decreases members@.len() - i,
    {
        if members[i] == who {
            return true;
        }
        i += 1;
    }
    false
}

/// The test that a declaration is by one of `members`.
pub open spec fn by_member(members: Seq<AccountId>) -> spec_fn((AccountId, Balance)) -> bool {
    |t: (AccountId, Balance)| members.contains(t.0)
}

/// The declarations that count: those by accounts that are tippers now.
pub open spec fn active(tips: Seq<(AccountId, Balance)>, members: Seq<AccountId>) -> Seq<(AccountId, Balance)> {
    tips.filter(by_member(members))
}

/// How many declarations start the countdown: half of the tippers, rounded up.
pub open spec fn threshold(members: Seq<AccountId>) -> int {
    (members.len() + 1) as int / 2
}

/// The declarations once `tipper` has declared `value`: the declaration
/// replaces the tipper's earlier one, or else goes in before the first
/// declaration of a greater account.
pub open spec fn declared(tips: Seq<(AccountId, Balance)>, tipper: AccountId, value: Balance) -> Seq<
    (AccountId, Balance),
>
    decreases tips.len(),
{
    if tips.len() == 0 {
        seq![(tipper, value)]
    } else if tips.first().0 < tipper {
        seq![tips.first()] + declared(tips.drop_first(), tipper, value)
    } else if tips.first().0 == tipper {
        seq![(tipper, value)] + tips.drop_first()
    } else {
        seq![(tipper, value)] + tips
    }
}

proof fn lemma_declared_replaces(tips: Seq<(AccountId, Balance)>, tipper: AccountId, value: Balance, pos: int)
    requires
        sorted_by_account(tips),
        0 <= pos < tips.len(),
        tips[pos].0 == tipper,
    ensures
        declared(tips, tipper, value) == tips.update(pos, (tipper, value)),
    decreases pos,
{
    if pos > 0 {
        lemma_declared_replaces(tips.drop_first(), tipper, value, pos - 1);
    }
}

proof fn lemma_declared_inserts(tips: Seq<(AccountId, Balance)>, tipper: AccountId, value: Balance, pos: int)
    requires
        0 <= pos <= tips.len(),
        forall|i: int| 0 <= i < pos ==> tips[i].0 < tipper,
        forall|i: int| pos <= i < tips.len() ==> tips[i].0 > tipper,
    ensures
        declared(tips, tipper, value) == tips.insert(pos, (tipper, value)),
    decreases pos,
{
    if pos > 0 {
        lemma_declared_inserts(tips.drop_first(), tipper, value, pos - 1);
    }
}

/// Where `tipper`'s declaration stands among sorted declarations (`Ok`), or
/// where it would have to go in (`Err`).
pub fn search_by_account(tips: &Vec<(AccountId, Balance)>, tipper: AccountId) -> (r: Result<usize, usize>)
    requires
        sorted_by_account(tips@),
    ensures
        match r {
            Ok(pos) => pos < tips@.len() && tips@[pos as int].0 == tipper,
            Err(pos) => {
                &&& pos <= tips@.len()
                &&& forall|i: int| 0 <= i < pos ==> tips@[i].0 < tipper
                &&& forall|i: int| pos <= i < tips@.len() ==> tips@[i].0 > tipper
            },
        },
{
    let mut low: usize = 0;
    let mut high: usize = tips.len();
    while low < high
        invariant
            sorted_by_account(tips@),
            low <= high <= tips@.len(),
            forall|i: int| 0 <= i < low ==> tips@[i].0 < tipper,
            forall|i: int| high <= i < tips@.len() ==> tips@[i].0 > tipper,
        decreases high - low,
    {
        let mid: usize = low + (high - low) / 2;
        let account = tips[mid].0;
        if account == tipper {
            return Ok(mid);
        } else if account < tipper {
            low = mid + 1;
        } else {
            high = mid;
        }
    }
    Err(low)
}

/// How many of the declarations count.
pub fn count_active(tips: &Vec<(AccountId, Balance)>, members: &Vec<AccountId>) -> (n: usize)
    ensures
        n == active(tips@, members@).len(),
{
    let mut n: usize = 0;
    let mut i: usize = 0;
    while i < tips.len()
        invariant
            i <= tips@.len(),
            n <= i,
            n == active(tips@.take(i as int), members@).len(),
        decreases tips@.len() - i,
    {
        let entry = tips[i];
        proof {
            assert(tips@.take(i + 1) =~= tips@.take(i as int).push(entry));
            tips@.take(i as int).lemma_filter_push(entry, by_member(members@));
        }
        if is_tipper(members, entry.0) {
            n += 1;
        }
        i += 1;
    }
    assert(tips@.take(tips@.len() as int) =~= tips@);
    n
}

/// Remove any declaration by an account that is not one of `members`.
pub fn retain_active_tips(tips: &mut Vec<(AccountId, Balance)>, members: &Vec<AccountId>)
    ensures
        final(tips)@ == active(old(tips)@, members@),
        sorted_by_account(old(tips)@) ==> sorted_by_account(final(tips)@),
{
    let ghost all = tips@;
    let mut kept: Vec<(AccountId, Balance)> = Vec::new();
    let mut i: usize = 0;
    while i < tips.len()
        invariant
            tips@ == all,
            i <= all.len(),
            kept@ == active(all.take(i as int), members@),
            forall|k: int| 0 <= k < kept@.len() ==> exists|j: int| 0 <= j < i && all[j] == #[trigger] kept@[k],
            sorted_by_account(all) ==> sorted_by_account(kept@),
        decreases all.len() - i,
    {
        let entry = tips[i];
        proof {
            assert(all.take(i + 1) =~= all.take(i as int).push(entry));
            all.take(i as int).lemma_filter_push(entry, by_member(members@));
        }
        if is_tipper(members, entry.0) {
            assert(sorted_by_account(all) ==> sorted_by_account(kept@.push(entry)));
            kept.push(entry);
        }
        i += 1;
    }
    assert(all.take(all.len() as int) =~= all);
    *tips = kept;
}

/// Put `tipper`'s declaration of `value` among the declarations: in place of
/// the tipper's earlier one, or else where the order of accounts has it.
pub fn declare(tips: &mut Vec<(AccountId, Balance)>, tipper: AccountId, value: Balance)
    requires
        sorted_by_account(old(tips)@),
    ensures
        final(tips)@ == declared(old(tips)@, tipper, value),
        sorted_by_account(final(tips)@),
{
    match search_by_account(tips, tipper) {
        Ok(pos) => {
            proof {
                lemma_declared_replaces(tips@, tipper, value, pos as int);
            }
            tips.set(pos, (tipper, value));
        },
        Err(pos) => {
            proof {
                lemma_declared_inserts(tips@, tipper, value, pos as int);
            }
            tips.insert(pos, (tipper, value));
        },
    }
}

/// Only tippers count. Each declaration that counts is one of the
/// declarations made, by an account that is a tipper now; so a tip on which
/// no tipper of today has declared has no declaration that counts.
pub proof fn lemma_only_tippers_count(tips: Seq<(AccountId, Balance)>, members: Seq<AccountId>)
    ensures
        active(tips, members).len() <= tips.len(),
        forall|i: int| 0 <= i < active(tips, members).len() ==> members.contains(
            (#[trigger] active(tips, members)[i]).0,
        ) && tips.contains(active(tips, members)[i]),
        (forall|j: int| 0 <= j < tips.len() ==> !members.contains((#[trigger] tips[j]).0)) ==> active(
            tips,
            members,
        ).len() == 0,
{
    let counted = active(tips, members);
    assert forall|i: int| 0 <= i < counted.len() implies members.contains((#[trigger] counted[i]).0)
        && tips.contains(counted[i]) by {
        tips.lemma_filter_contains_rev(by_member(members), counted[i]);
    }
    if forall|j: int| 0 <= j < tips.len() ==> !members.contains((#[trigger] tips[j]).0) {
        if counted.len() > 0 {
            tips.lemma_filter_pred(by_member(members), 0);
        }
    }
}

} // verus!
