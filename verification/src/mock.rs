//! A small reference setting for examples and tests: a set of parameters and
//! a roster of five tippers.

use vstd::prelude::*;
use crate::config::Config;
use crate::module::Module;
use crate::types::{AccountId, Origin};

verus! {

/// The tippers with the accounts ten to fourteen.
pub struct TenToFourteen;

impl TenToFourteen {
    /// The tippers, in ascending order.
    pub fn sorted_members() -> (members: Vec<AccountId>)
        ensures
            members@ == seq![10u128, 11u128, 12u128, 13u128, 14u128],
    {
        let mut members: Vec<AccountId> = Vec::new();
        members.push(10);
        members.push(11);
        members.push(12);
        members.push(13);
        members.push(14);
        members
    }

    /// The most tippers there can be.
    pub fn max_len() -> (n: usize)
        ensures
            n == 5,
    {
        5
    }

    /// The fewest tippers there can be.
    pub fn min_len() -> (n: usize)
        ensures
            n == 0,
    {
        0
    }
}

/// The reference parameters.
pub open spec fn reference_config() -> Config {
    Config {
        approve_origin: Origin::Root,
        reject_origin: Origin::Root,
        proposal_bond: 50_000,
        proposal_bond_minimum: 1,
        spend_period: 2,
        burn: 500_000,
        tip_countdown: 1,
        tip_finders_fee: 20,
        tip_report_deposit_base: 1,
        data_deposit_per_byte: 1,
        bounty_deposit_base: 80,
        bounty_deposit_payout_delay: 3,
        bounty_duration: 20,
        maximum_reason_length: 16384,
        maximum_sub_bounty_depth: 2,
    }
}

/// A reference treasury: approvals and rejections come from the root, the
/// bond on proposals is 5 % with a minimum of 1, the spend period is 2 blocks
/// with half of the surplus burnt, tips close 1 block after the threshold with
/// a finder's fee of 20 %, and bounties last 20 blocks, pay out 3 blocks after
/// their award and nest 2 deep.
pub struct Test;

impl Test {
    /// The parameters.
    pub fn config() -> (config: Config)
        ensures
            config.valid(),
            config == reference_config(),
    {
        Config {
            approve_origin: Origin::Root,
            reject_origin: Origin::Root,
            proposal_bond: 50_000,
            proposal_bond_minimum: 1,
            spend_period: 2,
            burn: 500_000,
            tip_countdown: 1,
            tip_finders_fee: 20,
            tip_report_deposit_base: 1,
            data_deposit_per_byte: 1,
            bounty_deposit_base: 80,
            bounty_deposit_payout_delay: 3,
            bounty_duration: 20,
            maximum_reason_length: 16384,
            maximum_sub_bounty_depth: 2,
        }
    }

    /// An empty treasury with these parameters.
    pub fn module() -> (m: Module)
        ensures
            m.wf(),
            m.fresh(reference_config()),
    {
        Module::new(Test::config()).unwrap()
    }
}

} // verus!
