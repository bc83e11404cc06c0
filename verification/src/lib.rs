//! A point-accrual and proportional-reward-distribution ledger.
//!
//! Contributors log categorized actions with an impact rating; a fixed
//! scoring table turns each action into points, which accrue on the
//! contributor's record. Periodically a funding pool is split among all
//! contributors in proportion to their accumulated points. This crate holds
//! the ledger logic only: account wiring, clocks and the token-transfer
//! primitive are collaborators supplied by the hosting environment.

use vstd::prelude::*;

pub mod ledger;
pub mod scoring;

verus! {

/// The failures the ledger can report.
#[derive(Clone, Copy, Debug, PartialEq, Eq, Structural)]
pub enum CustomError {
    /// The impact rating lies outside the category's valid sub-ranges.
    InvalidImpact,
    /// Distribution was requested while no points have been accrued.
    NoContributions,
}

} // verus!
