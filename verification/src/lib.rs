//! A treasury: a pot of funds with three ways of allocating it (spending
//! proposals, tips paid at the median of what tippers declare, and bounties
//! with sub-bounties) and a periodic settlement that funds what was approved
//! and burns part of what is left.
//!
//! The treasury decides; it never touches a ledger. Each operation takes what
//! it needs to know of the ledger as plain values (what the pot holds, whether
//! a bond can be reserved) and, when it succeeds, hands back the instructions
//! that its host has to carry out, in their order. An operation that is
//! refused changes nothing.
//!
//! - [`types`]: identifiers, origins, refusals, notifications, instructions.
//! - [`config`], [`fraction`]: the parameters, and the bonds, deposits and
//!   shares that follow from them.
//! - [`module`], [`restore`], [`table`]: the state, its invariant, and how it
//!   is rebuilt from what a host has kept.
//! - [`proposals`], [`tips`], [`bounties`]: the operations.
//! - [`declarations`], [`median`], [`hashing`]: what tips are made of.
//! - [`spend`], [`spend_laws`]: the settlement and what holds of it.
//! - [`migration`]: tips in their earlier form.
//! - [`mock`]: a reference setting.

pub mod bounties;
pub mod config;
pub mod declarations;
pub mod fraction;
pub mod hashing;
pub mod median;
pub mod migration;
pub mod mock;
pub mod module;
pub mod proposals;
pub mod restore;
pub mod spend;
pub mod spend_laws;
pub mod table;
pub mod tips;
pub mod types;
