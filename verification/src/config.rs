//! The parameters that a host fixes for its treasury, and the bonds and
//! deposits that follow from them.

use vstd::prelude::*;
use crate::fraction::{lemma_share_bounded, lemma_share_monotonic, permill_of, share, MILLION};
use crate::types::{Balance, BlockNumber, Origin};

verus! {

/// The parameters of a treasury.
#[derive(Clone, Copy, Debug, PartialEq, Eq)]
pub struct Config {
    /// Origin from which approvals must come.
    pub approve_origin: Origin,
    /// Origin from which rejections must come.
    pub reject_origin: Origin,
    /// Fraction of a proposal's value that is bonded, in parts per million.
    pub proposal_bond: u32,
    /// Least bond for a proposal.
    pub proposal_bond_minimum: Balance,
    /// Period between successive spends, in blocks.
    pub spend_period: BlockNumber,
    /// Fraction of the unspent budget that is burnt per spend period, in parts
    /// per million.
    pub burn: u32,
    /// How long a tip stays open once half of the tippers have declared.
    pub tip_countdown: BlockNumber,
    /// Share of a tip that goes to its finder, in per cent.
    pub tip_finders_fee: u8,
    /// Deposit for reporting a tip, before its reason's length is counted.
    pub tip_report_deposit_base: Balance,
    /// Deposit per byte of a tip's reason or a bounty's description.
    pub data_deposit_per_byte: Balance,
    /// Deposit for proposing a bounty, before its description's length is counted.
    pub bounty_deposit_base: Balance,
    /// Delay between the award of a bounty and its claim.
    pub bounty_deposit_payout_delay: BlockNumber,
    /// How long a bounty stays active.
    pub bounty_duration: BlockNumber,
    /// Longest reason or description accepted, in bytes.
    pub maximum_reason_length: u32,
    /// How many sub-bounties may hang below one another.
    pub maximum_sub_bounty_depth: u8,
}

/// The deposit for `len` bytes of data on top of `base`.
pub open spec fn data_deposit(base: Balance, per_byte: Balance, len: int) -> int {
    base + per_byte * len
}

/// The bond for a proposal that spends `value`: the bonded fraction of the
/// value, and at least the minimum.
pub open spec fn proposal_bond(config: Config, value: Balance) -> int {
    let proportional = share(config.proposal_bond as int, MILLION as int, value as int);
    if proportional > config.proposal_bond_minimum { proportional } else { config.proposal_bond_minimum as int }
}

impl Config {
    /// The spend period is not zero, the depth limit is not the largest value
    /// of its type, and the deposit for the longest reason fits a balance.
    pub open spec fn valid(&self) -> bool {
        &&& self.spend_period > 0
        &&& self.maximum_sub_bounty_depth < u8::MAX
        &&& data_deposit(self.tip_report_deposit_base, self.data_deposit_per_byte,
                self.maximum_reason_length as int) <= Balance::MAX
        &&& data_deposit(self.bounty_deposit_base, self.data_deposit_per_byte,
                self.maximum_reason_length as int) <= Balance::MAX
    }

    /// Whether the parameters are valid.
    pub fn is_valid(&self) -> (b: bool)
        ensures
            b == self.valid(),
    {
        if self.spend_period == 0 || self.maximum_sub_bounty_depth == u8::MAX {
            return false;
        }
        let longest: u64 = self.maximum_reason_length as u64;
        match self.data_deposit_per_byte.checked_mul(longest) {
            None => false,
            Some(data) => {
                data.checked_add(self.tip_report_deposit_base).is_some()
                    && data.checked_add(self.bounty_deposit_base).is_some()
            },
        }
    }

    /// The needed bond for a proposal whose spend is `value`.
    pub fn calculate_bond(&self, value: Balance) -> (bond: Balance)
        ensures
            bond == proposal_bond(*self, value),
            bond >= self.proposal_bond_minimum,
    {
        let proportional = permill_of(self.proposal_bond, value);
        if proportional > self.proposal_bond_minimum {
            proportional
        } else {
            self.proposal_bond_minimum
        }
    }

    /// The deposit for reporting a tip whose reason is `len` bytes long.
    pub fn tip_deposit(&self, len: usize) -> (deposit: Balance)
        requires
            self.valid(),
            len <= self.maximum_reason_length,
        ensures
            deposit == data_deposit(self.tip_report_deposit_base, self.data_deposit_per_byte, len as int),
    {
        proof {
            lemma_deposit_fits(self.tip_report_deposit_base, self.data_deposit_per_byte, len as int,
                self.maximum_reason_length as int);
        }
        self.tip_report_deposit_base + self.data_deposit_per_byte * (len as u64)
    }

    /// The bond for proposing a bounty whose description is `len` bytes long.
    pub fn bounty_bond(&self, len: usize) -> (bond: Balance)
        requires
            self.valid(),
            len <= self.maximum_reason_length,
        ensures
            bond == data_deposit(self.bounty_deposit_base, self.data_deposit_per_byte, len as int),
    {
        proof {
            lemma_deposit_fits(self.bounty_deposit_base, self.data_deposit_per_byte, len as int,
                self.maximum_reason_length as int);
        }
        self.bounty_deposit_base + self.data_deposit_per_byte * (len as u64)
    }
}

proof fn lemma_deposit_fits(base: Balance, per_byte: Balance, len: int, longest: int)
    requires
        0 <= len <= longest,
        data_deposit(base, per_byte, longest) <= Balance::MAX,
    ensures
        0 <= per_byte * len <= data_deposit(base, per_byte, len) <= Balance::MAX,
{
    assert(0 <= per_byte * len <= per_byte * longest) by (nonlinear_arith)
        requires 0 <= len <= longest, 0 <= per_byte;
}

/// The bond for a proposal is never below the minimum, never above the larger
/// of the minimum and the value, and grows with the value.
pub proof fn lemma_proposal_bond_bounds(config: Config, value: Balance, more: Balance)
    requires
        value <= more,
    ensures
        proposal_bond(config, value) >= config.proposal_bond_minimum,
        proposal_bond(config, value) <= config.proposal_bond_minimum
            || proposal_bond(config, value) <= value,
        proposal_bond(config, value) <= proposal_bond(config, more),
{
    lemma_share_bounded(config.proposal_bond as int, MILLION as int, value as int);
    lemma_share_monotonic(config.proposal_bond as int, MILLION as int, value as int, more as int);
}

/// Above the minimum the bond is linear in the value: where the bonded
/// fraction of `value` is the whole number `k`, and `k` is at least the
/// minimum, the bond is `k`.
pub proof fn lemma_proposal_bond_linear(config: Config, value: Balance, k: int)
    requires
        config.proposal_bond <= MILLION,
        config.proposal_bond * value == k * MILLION,
        k >= config.proposal_bond_minimum,
    ensures
        proposal_bond(config, value) == k,
{
}

} // verus!
