//! Tips: reported or started by a tipper, declared on by the tippers, closed
//! at the median of what they declared.

use vstd::prelude::*;
use crate::config::data_deposit;
use crate::declarations::{active, declare, declared, is_tipper, retain_active_tips, sorted_by_account, threshold};
use crate::fraction::{lemma_share_bounded, percent_of, share, HUNDRED};
use crate::hashing::{blake2_256, reason_hash, tip_hash, tip_key};
use crate::median::{amounts, median, median_of};
use crate::module::{same_bounties, same_proposals, Module};
use crate::types::{ensure_signed, Account, AccountId, Balance, BlockNumber, Effect, Error, Event, Origin, H256};

verus! {

/// An open tipping "motion". Retains all details of a tip including
/// information on the finder and the members who have voted.
#[derive(Clone, Debug, PartialEq, Eq)]
pub struct OpenTip {
    /// The hash of the reason for the tip.
    pub reason: H256,
    /// The account to be tipped.
    pub who: AccountId,
    /// The account who began this tip.
    pub finder: AccountId,
    /// The amount held on deposit for this tip.
    pub deposit: Balance,
    /// The block number at which this tip will close if `Some`. If `None`,
    /// then no closing is scheduled.
    pub closes: Option<BlockNumber>,
    /// The members who have voted for this tip. Sorted by AccountId.
    pub tips: Vec<(AccountId, Balance)>,
    /// Whether this tip should result in the finder taking a fee.
    pub finders_fee: bool,
}

/// An open tip as a mathematical value.
pub struct OpenTipView {
    pub reason: H256,
    pub who: AccountId,
    pub finder: AccountId,
    pub deposit: Balance,
    pub closes: Option<BlockNumber>,
    pub tips: Seq<(AccountId, Balance)>,
    pub finders_fee: bool,
}

impl View for OpenTip {
    type V = OpenTipView;

    open spec fn view(&self) -> OpenTipView {
        OpenTipView {
            reason: self.reason,
            who: self.who,
            finder: self.finder,
            deposit: self.deposit,
            closes: self.closes,
            tips: self.tips@,
            finders_fee: self.finders_fee,
        }
    }
}

/// Whether `tipper`'s declaration of `value` starts the countdown of a tip:
/// none is running, and the declarations that count reach the threshold.
pub open spec fn starts_countdown(
    tip: OpenTipView,
    tipper: AccountId,
    value: Balance,
    members: Seq<AccountId>,
) -> bool {
    tip.closes is None && active(declared(tip.tips, tipper, value), members).len() >= threshold(members)
}

/// A tip once `tipper` has declared `value` on it at block `now`: the
/// declarations that no longer count are gone, and the tip closes `countdown`
/// blocks from now if this declaration started the countdown.
pub open spec fn tip_after(
    tip: OpenTipView,
    tipper: AccountId,
    value: Balance,
    members: Seq<AccountId>,
    now: BlockNumber,
    countdown: BlockNumber,
) -> OpenTipView {
    OpenTipView {
        tips: active(declared(tip.tips, tipper, value), members),
        closes: if starts_countdown(tip, tipper, value, members) {
            Some((now + countdown) as BlockNumber)
        } else {
            tip.closes
        },
        ..tip
    }
}

/// What a tip pays out of a pot of `pot`: the median of the declarations
/// that count, as far as the pot reaches.
pub open spec fn tip_payout(tip: OpenTipView, members: Seq<AccountId>, pot: Balance) -> Balance {
    let m = median(amounts(active(tip.tips, members)));
    if m < pot { m } else { pot }
}

/// Whether the finder of a tip takes a fee: the tip was reported, and not by
/// its own beneficiary.
pub open spec fn pays_finder(tip: OpenTipView) -> bool {
    tip.finders_fee && tip.finder != tip.who
}

/// The finder's fee of a tip.
pub open spec fn finders_fee(fee_percent: u8, tip: OpenTipView, members: Seq<AccountId>, pot: Balance) -> Balance {
    if pays_finder(tip) {
        share(fee_percent as int, HUNDRED as int, tip_payout(tip, members, pot) as int) as Balance
    } else {
        0
    }
}

/// What the close of a tip instructs: the finder's deposit is released, the
/// finder is paid its fee, and the beneficiary what is left of the payout.
pub open spec fn payout_effects(
    fee_percent: u8,
    hash: H256,
    tip: OpenTipView,
    members: Seq<AccountId>,
    pot: Balance,
) -> Seq<Effect> {
    let fee = finders_fee(fee_percent, tip, members, pot);
    let payout = (tip_payout(tip, members, pot) - fee) as Balance;
    let release = if tip.deposit != 0 {
        seq![Effect::Unreserve { who: tip.finder, amount: tip.deposit }]
    } else {
        Seq::<Effect>::empty()
    };
    let reward = if pays_finder(tip) {
        seq![
            Effect::Transfer {
                from: Account::Treasury,
                to: Account::User(tip.finder),
                amount: fee,
                keep_alive: true,
            },
        ]
    } else {
        Seq::<Effect>::empty()
    };
    release + reward + seq![
        Effect::Transfer { from: Account::Treasury, to: Account::User(tip.who), amount: payout, keep_alive: true },
        Effect::Notify(Event::TipClosed(hash, tip.who, payout)),
    ]
}

/// Why a report of `reason` for `who` is refused, if it is.
pub open spec fn report_refusal(
    m: Module,
    origin: Origin,
    reason: Seq<u8>,
    who: AccountId,
    can_reserve: bool,
) -> Option<Error> {
    if !(origin is Signed) {
        Some(Error::BadOrigin)
    } else if reason.len() > m.config.maximum_reason_length {
        Some(Error::ReasonTooBig)
    } else if m.reasons.map().contains_key(blake2_256(reason)) {
        Some(Error::AlreadyKnown)
    } else if m.tips.map().contains_key(tip_key(reason, who)) {
        Some(Error::AlreadyKnown)
    } else if !can_reserve {
        Some(Error::InsufficientProposersBalance)
    } else {
        None
    }
}

/// Why `origin` cannot retract tip `hash`, if it cannot.
pub open spec fn retract_refusal(m: Module, origin: Origin, hash: H256) -> Option<Error> {
    if !(origin is Signed) {
        Some(Error::BadOrigin)
    } else if !m.tips.map().contains_key(hash) {
        Some(Error::UnknownTip)
    } else if m.tips.map()[hash].finder != origin->Signed_0 {
        Some(Error::NotFinder)
    } else {
        None
    }
}

/// Why `origin` cannot start a tip for `reason`, if it cannot.
pub open spec fn tip_new_refusal(m: Module, origin: Origin, reason: Seq<u8>, members: Seq<AccountId>) -> Option<
    Error,
> {
    if !(origin is Signed) || !members.contains(origin->Signed_0) {
        Some(Error::BadOrigin)
    } else if m.reasons.map().contains_key(blake2_256(reason)) {
        Some(Error::AlreadyKnown)
    } else {
        None
    }
}

/// Why `origin` cannot declare on tip `hash`, if it cannot.
pub open spec fn tip_refusal(m: Module, origin: Origin, hash: H256, members: Seq<AccountId>) -> Option<Error> {
    if !(origin is Signed) || !members.contains(origin->Signed_0) {
        Some(Error::BadOrigin)
    } else if !m.tips.map().contains_key(hash) {
        Some(Error::UnknownTip)
    } else {
        None
    }
}

/// Why `origin` cannot close tip `hash` at block `now`, if it cannot.
pub open spec fn close_refusal(m: Module, origin: Origin, hash: H256, now: BlockNumber) -> Option<Error> {
    if !(origin is Signed) {
        Some(Error::BadOrigin)
    } else if !m.tips.map().contains_key(hash) {
        Some(Error::UnknownTip)
    } else {
        match m.tips.map()[hash].closes {
            None => Some(Error::StillOpen),
            Some(n) => if now < n { Some(Error::Premature) } else { None },
        }
    }
}

impl Module {
    /// The open tip named `hash`.
    pub fn tips(&self, hash: H256) -> (r: Option<&OpenTip>)
        requires
            self.wf(),
        ensures
            r is Some <==> self.tips.map().contains_key(hash),
            r is Some ==> *r->0 == self.tips.map()[hash],
    {
        self.tips.get(hash)
    }

    /// The reason whose digest is `hash`.
    pub fn reasons(&self, hash: H256) -> (r: Option<&Vec<u8>>)
        requires
            self.wf(),
        ensures
            r is Some <==> self.reasons.map().contains_key(hash),
            r is Some ==> *r->0 == self.reasons.map()[hash],
    {
        self.reasons.get(hash)
    }

    /// Put `tipper`'s declaration of `tip_value` into `tip`, drop the
    /// declarations that no longer count, and start the countdown if the
    /// threshold is reached and none is running. Says whether it started.
    pub fn insert_tip_and_check_closing(
        &self,
        tip: &mut OpenTip,
        tipper: AccountId,
        tip_value: Balance,
        members: &Vec<AccountId>,
        now: BlockNumber,
    ) -> (closing: bool)
        requires
            sorted_by_account(old(tip).tips@),
            now + self.config.tip_countdown <= BlockNumber::MAX,
        ensures
            final(tip)@ == tip_after(old(tip)@, tipper, tip_value, members@, now, self.config.tip_countdown),
            closing == starts_countdown(old(tip)@, tipper, tip_value, members@),
            sorted_by_account(final(tip).tips@),
    {
        declare(&mut tip.tips, tipper, tip_value);
        retain_active_tips(&mut tip.tips, members);
        let count = members.len();
        let needed = count / 2 + count % 2;
        if tip.tips.len() >= needed && tip.closes.is_none() {
            tip.closes = Some(now + self.config.tip_countdown);
            true
        } else {
            false
        }
    }

    /// Execute the payout of a closed tip out of a pot of `pot`.
    pub fn payout_tip(&self, hash: H256, tip: OpenTip, members: &Vec<AccountId>, pot: Balance) -> (effects: Vec<
        Effect,
    >)
        requires
            active(tip.tips@, members@).len() > 0,
        ensures
            effects@ == payout_effects(self.config.tip_finders_fee, hash, tip@, members@, pot),
    {
        let mut tips = tip.tips;
        retain_active_tips(&mut tips, members);
        let middle = median_of(&tips);
        let mut payout = if middle < pot { middle } else { pot };
        let mut effects: Vec<Effect> = Vec::new();
        if tip.deposit != 0 {
            effects.push(Effect::Unreserve { who: tip.finder, amount: tip.deposit });
        }
        if tip.finders_fee {
            if tip.finder != tip.who {
                proof {
                    lemma_share_bounded(self.config.tip_finders_fee as int, HUNDRED as int, payout as int);
                }
                let fee = percent_of(self.config.tip_finders_fee, payout);
                payout = payout - fee;
                effects.push(Effect::Transfer {
                    from: Account::Treasury,
                    to: Account::User(tip.finder),
                    amount: fee,
                    keep_alive: true,
                });
            }
        }
        effects.push(Effect::Transfer {
            from: Account::Treasury,
            to: Account::User(tip.who),
            amount: payout,
            keep_alive: true,
        });
        effects.push(Effect::Notify(Event::TipClosed(hash, tip.who, payout)));
        effects
    }

    /// Report something that deserves a tip, as any account, and claim the
    /// finder's fee. `can_reserve` says whether the ledger can reserve the
    /// deposit of `tip_deposit(reason.len())` from the finder.
    pub fn report_awesome(&mut self, origin: Origin, reason: Vec<u8>, who: AccountId, can_reserve: bool) -> (r:
        Result<Vec<Effect>, Error>)
        requires
            old(self).wf(),
        ensures
            final(self).wf(),
            match r {
                Err(e) => report_refusal(*old(self), origin, reason@, who, can_reserve) == Some(e) && *final(self)
                    == *old(self),
                Ok(effects) => {
                    let deposit = data_deposit(
                        old(self).config.tip_report_deposit_base,
                        old(self).config.data_deposit_per_byte,
                        reason@.len() as int,
                    ) as Balance;
                    &&& report_refusal(*old(self), origin, reason@, who, can_reserve) is None
                    &&& effects@ == seq![
                        Effect::Reserve { who: origin->Signed_0, amount: deposit },
                        Effect::Notify(Event::NewTip(tip_key(reason@, who))),
                    ]
                    &&& final(self).reasons.map() == old(self).reasons.map().insert(blake2_256(reason@), reason)
                    &&& final(self).tips.map().dom() == old(self).tips.map().dom().insert(tip_key(reason@, who))
                    &&& forall|h: H256| h != tip_key(reason@, who) && old(self).tips.map().contains_key(h)
                        ==> final(self).tips.map()[h] == old(self).tips.map()[h]
                    &&& final(self).tips.map()[tip_key(reason@, who)]@ == (OpenTipView {
                        reason: blake2_256(reason@),
                        who,
                        finder: origin->Signed_0,
                        deposit,
                        closes: None,
                        tips: Seq::empty(),
                        finders_fee: true,
                    })
                    &&& same_proposals(*final(self), *old(self))
                    &&& same_bounties(*final(self), *old(self))
                },
            },
    {
        let finder = ensure_signed(origin)?;
        if reason.len() > self.config.maximum_reason_length as usize {
            return Err(Error::ReasonTooBig);
        }
        let reason_hash = reason_hash(&reason);
        if self.reasons.contains_key(reason_hash) {
            return Err(Error::AlreadyKnown);
        }
        let hash = tip_hash(reason_hash, who);
        if self.tips.contains_key(hash) {
            return Err(Error::AlreadyKnown);
        }
        if !can_reserve {
            return Err(Error::InsufficientProposersBalance);
        }
        let deposit = self.config.tip_deposit(reason.len());
        self.reasons.insert(reason_hash, reason);
        let tip = OpenTip {
            reason: reason_hash,
            who,
            finder,
            deposit,
            closes: None,
            tips: Vec::new(),
            finders_fee: true,
        };
        self.tips.insert(hash, tip);
        let mut effects: Vec<Effect> = Vec::new();
        effects.push(Effect::Reserve { who: finder, amount: deposit });
        effects.push(Effect::Notify(Event::NewTip(hash)));
        Ok(effects)
    }

    /// Retract a tip, as its finder: the tip and its reason are forgotten and
    /// the deposit is released.
    pub fn retract_tip(&mut self, origin: Origin, hash: H256) -> (r: Result<Vec<Effect>, Error>)
        requires
            old(self).wf(),
        ensures
            final(self).wf(),
            match r {
                Err(e) => retract_refusal(*old(self), origin, hash) == Some(e) && *final(self) == *old(self),
                Ok(effects) => {
                    let tip = old(self).tips.map()[hash];
                    &&& retract_refusal(*old(self), origin, hash) is None
                    &&& effects@ == (if tip.deposit != 0 {
                        seq![Effect::Unreserve { who: origin->Signed_0, amount: tip.deposit }]
                    } else {
                        Seq::<Effect>::empty()
                    }) + seq![Effect::Notify(Event::TipRetracted(hash))]
                    &&& final(self).tips.map() == old(self).tips.map().remove(hash)
                    &&& final(self).reasons.map() == old(self).reasons.map().remove(tip.reason)
                    &&& same_proposals(*final(self), *old(self))
                    &&& same_bounties(*final(self), *old(self))
                },
            },
    {
        let who = ensure_signed(origin)?;
        let (finder, reason, deposit) = match self.tips.get(hash) {
            Some(tip) => (tip.finder, tip.reason, tip.deposit),
            None => { return Err(Error::UnknownTip); },
        };
        if finder != who {
            return Err(Error::NotFinder);
        }
        self.reasons.remove(reason);
        self.tips.remove(hash);
        let mut effects: Vec<Effect> = Vec::new();
        if deposit != 0 {
            effects.push(Effect::Unreserve { who, amount: deposit });
        }
        effects.push(Effect::Notify(Event::TipRetracted(hash)));
        Ok(effects)
    }

    /// Give a tip for something new, as one of the tippers; no finder's fee
    /// will be taken.
    pub fn tip_new(
        &mut self,
        origin: Origin,
        reason: Vec<u8>,
        who: AccountId,
        tip_value: Balance,
        members: &Vec<AccountId>,
    ) -> (r: Result<Vec<Effect>, Error>)
        requires
            old(self).wf(),
        ensures
            final(self).wf(),
            match r {
                Err(e) => tip_new_refusal(*old(self), origin, reason@, members@) == Some(e) && *final(self) == *old(
                    self,
                ),
                Ok(effects) => {
                    &&& tip_new_refusal(*old(self), origin, reason@, members@) is None
                    &&& effects@ == seq![Effect::Notify(Event::NewTip(tip_key(reason@, who)))]
                    &&& final(self).reasons.map() == old(self).reasons.map().insert(blake2_256(reason@), reason)
                    &&& final(self).tips.map().dom() == old(self).tips.map().dom().insert(tip_key(reason@, who))
                    &&& forall|h: H256| h != tip_key(reason@, who) && old(self).tips.map().contains_key(h)
                        ==> final(self).tips.map()[h] == old(self).tips.map()[h]
                    &&& final(self).tips.map()[tip_key(reason@, who)]@ == (OpenTipView {
                        reason: blake2_256(reason@),
                        who,
                        finder: origin->Signed_0,
                        deposit: 0,
                        closes: None,
                        tips: seq![(origin->Signed_0, tip_value)],
                        finders_fee: false,
                    })
                    &&& same_proposals(*final(self), *old(self))
                    &&& same_bounties(*final(self), *old(self))
                },
            },
    {
        let tipper = ensure_signed(origin)?;
        if !is_tipper(members, tipper) {
            return Err(Error::BadOrigin);
        }
        let reason_hash = reason_hash(&reason);
        if self.reasons.contains_key(reason_hash) {
            return Err(Error::AlreadyKnown);
        }
        let hash = tip_hash(reason_hash, who);
        self.reasons.insert(reason_hash, reason);
        let mut tips: Vec<(AccountId, Balance)> = Vec::new();
        tips.push((tipper, tip_value));
        let tip = OpenTip {
            reason: reason_hash,
            who,
            finder: tipper,
            deposit: 0,
            closes: None,
            tips,
            finders_fee: false,
        };
        self.tips.insert(hash, tip);
        let mut effects: Vec<Effect> = Vec::new();
        effects.push(Effect::Notify(Event::NewTip(hash)));
        Ok(effects)
    }

    /// Declare a tip value for an already-open tip, as one of the tippers.
    pub fn tip(
        &mut self,
        origin: Origin,
        hash: H256,
        tip_value: Balance,
        members: &Vec<AccountId>,
        now: BlockNumber,
    ) -> (r: Result<Vec<Effect>, Error>)
        requires
            old(self).wf(),
            now + old(self).config.tip_countdown <= BlockNumber::MAX,
        ensures
            final(self).wf(),
            match r {
                Err(e) => tip_refusal(*old(self), origin, hash, members@) == Some(e) && *final(self) == *old(self),
                Ok(effects) => {
                    let before = old(self).tips.map()[hash]@;
                    let tipper = origin->Signed_0;
                    &&& tip_refusal(*old(self), origin, hash, members@) is None
                    &&& effects@ == (if starts_countdown(before, tipper, tip_value, members@) {
                        seq![Effect::Notify(Event::TipClosing(hash))]
                    } else {
                        Seq::<Effect>::empty()
                    })
                    &&& final(self).tips.map().dom() == old(self).tips.map().dom()
                    &&& forall|h: H256| h != hash && old(self).tips.map().contains_key(h)
                        ==> final(self).tips.map()[h] == old(self).tips.map()[h]
                    &&& final(self).tips.map()[hash]@ == tip_after(
                        before,
                        tipper,
                        tip_value,
                        members@,
                        now,
                        old(self).config.tip_countdown,
                    )
                    &&& final(self).reasons == old(self).reasons
                    &&& same_proposals(*final(self), *old(self))
                    &&& same_bounties(*final(self), *old(self))
                },
            },
    {
        let tipper = ensure_signed(origin)?;
        if !is_tipper(members, tipper) {
            return Err(Error::BadOrigin);
        }
        if !self.tips.contains_key(hash) {
            return Err(Error::UnknownTip);
        }
        let mut tip = match self.tips.remove(hash) {
            Some(tip) => tip,
            None => { return Err(Error::UnknownTip); },
        };
        let closing = self.insert_tip_and_check_closing(&mut tip, tipper, tip_value, members, now);
        self.tips.insert(hash, tip);
        let mut effects: Vec<Effect> = Vec::new();
        if closing {
            effects.push(Effect::Notify(Event::TipClosing(hash)));
        }
        Ok(effects)
    }

    /// Close and pay out a tip whose countdown has passed, as any account.
    /// `pot` is what the treasury can spend now. A tip that can be closed must
    /// have a declaration that counts.
    pub fn close_tip(
        &mut self,
        origin: Origin,
        hash: H256,
        now: BlockNumber,
        pot: Balance,
        members: &Vec<AccountId>,
    ) -> (r: Result<Vec<Effect>, Error>)
        requires
            old(self).wf(),
            close_refusal(*old(self), origin, hash, now) is None ==> active(
                old(self).tips.map()[hash].tips@,
                members@,
            ).len() > 0,
        ensures
            final(self).wf(),
            match r {
                Err(e) => close_refusal(*old(self), origin, hash, now) == Some(e) && *final(self) == *old(self),
                Ok(effects) => {
                    let tip = old(self).tips.map()[hash];
                    &&& close_refusal(*old(self), origin, hash, now) is None
                    &&& effects@ == payout_effects(old(self).config.tip_finders_fee, hash, tip@, members@, pot)
                    &&& final(self).tips.map() == old(self).tips.map().remove(hash)
                    &&& final(self).reasons.map() == old(self).reasons.map().remove(tip.reason)
                    &&& same_proposals(*final(self), *old(self))
                    &&& same_bounties(*final(self), *old(self))
                },
            },
    {
        let _ = ensure_signed(origin)?;
        let (closes, reason) = match self.tips.get(hash) {
            Some(tip) => (tip.closes, tip.reason),
            None => { return Err(Error::UnknownTip); },
        };
        match closes {
            None => { return Err(Error::StillOpen); },
            Some(n) => {
                if now < n {
                    return Err(Error::Premature);
                }
            },
        }
        self.reasons.remove(reason);
        match self.tips.remove(hash) {
            Some(tip) => Ok(self.payout_tip(hash, tip, members, pot)),
            None => Err(Error::UnknownTip),
        }
    }
}

/// The countdown of a tip starts once and is never moved: a declaration on a
/// tip that is closing leaves its closing block as it is.
pub proof fn lemma_countdown_starts_once(
    tip: OpenTipView,
    tipper: AccountId,
    value: Balance,
    members: Seq<AccountId>,
    now: BlockNumber,
    countdown: BlockNumber,
)
    requires
        tip.closes is Some,
    ensures
        !starts_countdown(tip, tipper, value, members),
        tip_after(tip, tipper, value, members, now, countdown).closes == tip.closes,
{
}

/// A tip pays no more than the pot holds: the finder's fee and what goes to
/// the beneficiary add up to the median of the declarations that count, or to
/// the pot where the median is more.
pub proof fn lemma_tip_pays_within_pot(
    fee_percent: u8,
    hash: H256,
    tip: OpenTipView,
    members: Seq<AccountId>,
    pot: Balance,
)
    ensures
        ({
            let effects = payout_effects(fee_percent, hash, tip, members, pot);
            let fee = finders_fee(fee_percent, tip, members, pot);
            let last = effects[effects.len() - 1];
            &&& tip_payout(tip, members, pot) <= pot
            &&& fee <= tip_payout(tip, members, pot)
            &&& effects.len() >= 2
            &&& last == Effect::Notify(
                Event::TipClosed(hash, tip.who, (tip_payout(tip, members, pot) - fee) as Balance),
            )
            &&& !pays_finder(tip) ==> fee == 0
        }),
{
    lemma_share_bounded(fee_percent as int, HUNDRED as int, tip_payout(tip, members, pot) as int);
}

} // verus!
