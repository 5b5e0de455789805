//! Plain values shared by every part of the treasury: identifiers, amounts,
//! the error taxonomy, the notifications and the instructions for the ledger.

use vstd::prelude::*;

verus! {

/// Identity of an account on the ledger.
pub type AccountId = u128;

/// An amount of value.
pub type Balance = u64;

/// A block height.
pub type BlockNumber = u64;

/// An index of a proposal.
pub type ProposalIndex = u32;

/// An index of a bounty.
pub type BountyIndex = u32;

/// A 256-bit digest, held as two little-endian halves: `lo` is made of the
/// first sixteen bytes, `hi` of the last sixteen.
#[derive(Clone, Copy, Debug, PartialEq, Eq, Structural)]
pub struct H256 {
    pub lo: u128,
    pub hi: u128,
}

/// Who asks for an operation.
#[derive(Clone, Copy, Debug, PartialEq, Eq, Structural)]
pub enum Origin {
    /// The host itself, with every right.
    Root,
    /// The account that signed the request.
    Signed(AccountId),
    /// No one in particular.
    Nobody,
}

/// Why an operation was refused. Nothing is changed by a refused operation.
#[derive(Clone, Copy, Debug, PartialEq, Eq, Structural)]
pub enum Error {
    /// The caller is not entitled to the operation.
    BadOrigin,
    /// The ledger cannot take the bond or deposit from the caller.
    InsufficientProposersBalance,
    /// No proposal or bounty at that index.
    InvalidIndex,
    /// The reason given is just too big.
    ReasonTooBig,
    /// The tip was already found/started.
    AlreadyKnown,
    /// The tip hash is unknown.
    UnknownTip,
    /// The account attempting to retract the tip is not the finder of the tip.
    NotFinder,
    /// The tip cannot be closed because there are not enough tippers yet.
    StillOpen,
    /// The tip or bounty cannot be closed or claimed yet: its delay has not passed.
    Premature,
    /// The bounty status is unexpected.
    UnexpectedStatus,
    /// Require bounty curator.
    RequireCurator,
    /// Invalid bounty value.
    InvalidValue,
    /// Invalid bounty fee.
    InvalidFee,
    /// Sub-bounty cannot be created within the configured depth.
    ExceedDepthLimit,
    /// The ledger cannot move the sub-bounty's value out of its parent's account.
    FundingFailed,
}

/// One side of a movement of value on the ledger. The treasury never needs the
/// identity behind its own accounts, only which of them is meant.
#[derive(Clone, Copy, Debug, PartialEq, Eq, Structural)]
pub enum Account {
    /// An ordinary account.
    User(AccountId),
    /// The system account that holds the pot.
    Treasury,
    /// The account that holds what is earmarked for one bounty.
    Bounty(BountyIndex),
}

/// What the treasury notifies its host of.
#[derive(Clone, Copy, Debug, PartialEq, Eq, Structural)]
pub enum Event {
    /// New proposal.
    Proposed(ProposalIndex),
    /// A spend period has ended; the budget that is about to be allocated.
    Spending(Balance),
    /// Some funds have been allocated: proposal, award, beneficiary.
    Awarded(ProposalIndex, Balance, AccountId),
    /// A proposal was rejected; its bond was slashed.
    Rejected(ProposalIndex, Balance),
    /// Some of the pot has been burnt.
    Burnt(Balance),
    /// Spending has finished; the budget that rolls over to the next period.
    Rollover(Balance),
    /// A new tip suggestion has been opened.
    NewTip(H256),
    /// A tip suggestion has reached threshold and is closing.
    TipClosing(H256),
    /// A tip suggestion has been closed: tip, beneficiary, payout.
    TipClosed(H256, AccountId, Balance),
    /// A tip suggestion has been retracted.
    TipRetracted(H256),
    /// New bounty proposal.
    BountyProposed(BountyIndex),
    /// A bounty proposal was rejected; its bond was slashed.
    BountyRejected(BountyIndex, Balance),
    /// A bounty proposal is funded and became active.
    BountyBecameActive(BountyIndex),
    /// A bounty is awarded to a beneficiary.
    BountyAwarded(BountyIndex, AccountId),
    /// A bounty is claimed: bounty, payout, beneficiary.
    BountyClaimed(BountyIndex, Balance, AccountId),
    /// A bounty is cancelled.
    BountyCanceled(BountyIndex),
    /// A bounty expiry is extended.
    BountyExtended(BountyIndex),
}

/// One instruction that a successful operation hands to its host, to be carried
/// out on the ledger (or, for `Notify`, published) in the order given.
#[derive(Clone, Copy, Debug, PartialEq, Eq, Structural)]
pub enum Effect {
    /// Move `amount` of `who`'s free balance into its reserve.
    Reserve { who: AccountId, amount: Balance },
    /// Release up to `amount` of `who`'s reserve.
    Unreserve { who: AccountId, amount: Balance },
    /// Forfeit up to `amount` of `who`'s reserve to the rejection sink.
    Slash { who: AccountId, amount: Balance },
    /// Move `amount` between two accounts, best effort. With `keep_alive` the
    /// source must keep its minimum balance.
    Transfer { from: Account, to: Account, amount: Balance, keep_alive: bool },
    /// Issue `amount` to `to`, creating the account if needed.
    Mint { to: Account, amount: Balance },
    /// Issue `amount` to the burn sink.
    Burn { amount: Balance },
    /// Withdraw from the pot what the `Mint` and `Burn` instructions before it
    /// issued; `amount` is their sum.
    Settle { amount: Balance },
    /// Publish a notification.
    Notify(Event),
}

/// The account that signed, or the refusal of an origin that is no account.
pub open spec fn signer(origin: Origin) -> Result<AccountId, Error> {
    match origin {
        Origin::Signed(who) => Ok(who),
        _ => Err(Error::BadOrigin),
    }
}

/// The account that signed; any other origin is refused.
pub fn ensure_signed(origin: Origin) -> (r: Result<AccountId, Error>)
    ensures
        r == signer(origin),
{
    match origin {
        Origin::Signed(who) => Ok(who),
        _ => Err(Error::BadOrigin),
    }
}

/// Nothing, where `origin` is the origin that holds `authority`; any other
/// origin is refused.
pub fn ensure_origin(authority: Origin, origin: Origin) -> (r: Result<(), Error>)
    ensures
        r is Ok <==> origin == authority,
        r is Err ==> r == Err::<(), Error>(Error::BadOrigin),
{
    if origin == authority {
        Ok(())
    } else {
        Err(Error::BadOrigin)
    }
}

} // verus!
