//! The scoring table: a pure step function from (category, impact) to points.

use crate::CustomError;
use vstd::prelude::*;

verus! {

/// The kinds of contribution the ledger recognizes.
#[derive(Clone, Copy, Debug, PartialEq, Eq, Structural)]
pub enum ContributionType {
    BugFix,
    FeatureDev,
    CodeOptimization,
    BugReport,
    TestContribution,
}

/// Whether `impact` falls inside one of the valid sub-ranges of `category`.
///
/// Each category defines its own sub-ranges inside the overall `[1, 10]`
/// bound; an impact in a category's gap is invalid by design, not an
/// oversight.
pub open spec fn valid_impact(category: ContributionType, impact: u8) -> bool {
    match category {
        ContributionType::BugFix => 1 <= impact <= 10,
        ContributionType::FeatureDev => 2 <= impact <= 10,
        ContributionType::CodeOptimization => 1 <= impact <= 8,
        ContributionType::BugReport => 1 <= impact <= 10,
        ContributionType::TestContribution => 2 <= impact <= 7,
    }
}

/// The points the scoring table assigns, meaningful only where
/// `valid_impact(category, impact)` holds.
pub open spec fn score_of(category: ContributionType, impact: u8) -> u64 {
    match category {
        ContributionType::BugFix => {
            if impact <= 2 {
                1
            } else if impact <= 5 {
                3
            } else if impact <= 8 {
                6
            } else {
                9
            }
        },
        ContributionType::FeatureDev => {
            if impact <= 4 {
                2
            } else if impact <= 7 {
                5
            } else {
                8
            }
        },
        ContributionType::CodeOptimization => {
            if impact <= 2 {
                1
            } else if impact <= 5 {
                3
            } else {
                6
            }
        },
        ContributionType::BugReport => {
            if impact <= 2 {
                1
            } else if impact <= 5 {
                3
            } else if impact <= 8 {
                6
            } else {
                9
            }
        },
        ContributionType::TestContribution => {
            if impact <= 4 {
                2
            } else {
                5
            }
        },
    }
}

impl ContributionType {
    /// Scores one contribution: returns the table's points for a valid
    /// impact and rejects, with `InvalidImpact`, any impact outside this
    /// category's sub-ranges.
    pub fn assign_points(&self, impact: u8) -> (r: Result<u64, CustomError>)
        ensures
            match r {
                Ok(points) => valid_impact(*self, impact) && points == score_of(*self, impact),
                Err(e) => !valid_impact(*self, impact) && e == CustomError::InvalidImpact,
            },
    {
        let points: u64 = match self {
            ContributionType::BugFix => {
                if 1 <= impact && impact <= 2 {
                    1
                } else if 3 <= impact && impact <= 5 {
                    3
                } else if 6 <= impact && impact <= 8 {
                    6
                } else if 9 <= impact && impact <= 10 {
                    9
                } else {
                    return Err(CustomError::InvalidImpact);
                }
            },
            ContributionType::FeatureDev => {
                if 2 <= impact && impact <= 4 {
                    2
                } else if 5 <= impact && impact <= 7 {
                    5
                } else if 8 <= impact && impact <= 10 {
                    8
                } else {
                    return Err(CustomError::InvalidImpact);
                }
            },
            ContributionType::CodeOptimization => {
                if 1 <= impact && impact <= 2 {
                    1
                } else if 3 <= impact && impact <= 5 {
                    3
                } else if 6 <= impact && impact <= 8 {
                    6
                } else {
                    return Err(CustomError::InvalidImpact);
                }
            },
            ContributionType::BugReport => {
                if 1 <= impact && impact <= 2 {
                    1
                } else if 3 <= impact && impact <= 5 {
                    3
                } else if 6 <= impact && impact <= 8 {
                    6
                } else if 9 <= impact && impact <= 10 {
                    9
                } else {
                    return Err(CustomError::InvalidImpact);
                }
            },
            ContributionType::TestContribution => {
                if 2 <= impact && impact <= 4 {
                    2
                } else if 5 <= impact && impact <= 7 {
                    5
                } else {
                    return Err(CustomError::InvalidImpact);
                }
            },
        };
        Ok(points)
    }
}

} // verus!
