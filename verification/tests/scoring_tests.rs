use aixblock::scoring::ContributionType;
use aixblock::CustomError;

/// The documented scoring table: `None` where the category has no
/// sub-range for the impact.
fn expected_points(category: ContributionType, impact: u8) -> Option<u64> {
    match category {
        ContributionType::BugFix | ContributionType::BugReport => match impact {
            1..=2 => Some(1),
            3..=5 => Some(3),
            6..=8 => Some(6),
            9..=10 => Some(9),
            _ => None,
        },
        ContributionType::FeatureDev => match impact {
            2..=4 => Some(2),
            5..=7 => Some(5),
            8..=10 => Some(8),
            _ => None,
        },
        ContributionType::CodeOptimization => match impact {
            1..=2 => Some(1),
            3..=5 => Some(3),
            6..=8 => Some(6),
            _ => None,
        },
        ContributionType::TestContribution => match impact {
            2..=4 => Some(2),
            5..=7 => Some(5),
            _ => None,
        },
    }
}

const ALL_CATEGORIES: [ContributionType; 5] = [
    ContributionType::BugFix,
    ContributionType::FeatureDev,
    ContributionType::CodeOptimization,
    ContributionType::BugReport,
    ContributionType::TestContribution,
];

#[test]
fn score_matches_table_everywhere() {
    for category in ALL_CATEGORIES {
        for impact in 0..=20u8 {
            let got = category.assign_points(impact);
            match expected_points(category, impact) {
                Some(points) => assert_eq!(got, Ok(points)),
                None => assert_eq!(got, Err(CustomError::InvalidImpact)),
            }
        }
    }
}

#[test]
fn bug_fix_exact_values() {
    assert_eq!(ContributionType::BugFix.assign_points(1), Ok(1));
    assert_eq!(ContributionType::BugFix.assign_points(2), Ok(1));
    assert_eq!(ContributionType::BugFix.assign_points(3), Ok(3));
    assert_eq!(ContributionType::BugFix.assign_points(5), Ok(3));
    assert_eq!(ContributionType::BugFix.assign_points(6), Ok(6));
    assert_eq!(ContributionType::BugFix.assign_points(8), Ok(6));
    assert_eq!(ContributionType::BugFix.assign_points(9), Ok(9));
    assert_eq!(ContributionType::BugFix.assign_points(10), Ok(9));
}

#[test]
fn feature_dev_exact_values_and_gap() {
    assert_eq!(
        ContributionType::FeatureDev.assign_points(1),
        Err(CustomError::InvalidImpact)
    );
    assert_eq!(ContributionType::FeatureDev.assign_points(2), Ok(2));
    assert_eq!(ContributionType::FeatureDev.assign_points(4), Ok(2));
    assert_eq!(ContributionType::FeatureDev.assign_points(5), Ok(5));
    assert_eq!(ContributionType::FeatureDev.assign_points(7), Ok(5));
    assert_eq!(ContributionType::FeatureDev.assign_points(8), Ok(8));
    assert_eq!(ContributionType::FeatureDev.assign_points(10), Ok(8));
}

#[test]
fn code_optimization_rejects_high_impacts() {
    assert_eq!(ContributionType::CodeOptimization.assign_points(8), Ok(6));
    assert_eq!(
        ContributionType::CodeOptimization.assign_points(9),
        Err(CustomError::InvalidImpact)
    );
    assert_eq!(
        ContributionType::CodeOptimization.assign_points(10),
        Err(CustomError::InvalidImpact)
    );
}

#[test]
fn test_contribution_rejects_outside_two_to_seven() {
    assert_eq!(
        ContributionType::TestContribution.assign_points(1),
        Err(CustomError::InvalidImpact)
    );
    assert_eq!(ContributionType::TestContribution.assign_points(2), Ok(2));
    assert_eq!(ContributionType::TestContribution.assign_points(7), Ok(5));
    for impact in 8..=10u8 {
        assert_eq!(
            ContributionType::TestContribution.assign_points(impact),
            Err(CustomError::InvalidImpact)
        );
    }
}

#[test]
fn impacts_outside_global_bound_rejected_for_every_category() {
    for category in ALL_CATEGORIES {
        assert_eq!(category.assign_points(0), Err(CustomError::InvalidImpact));
        assert_eq!(category.assign_points(11), Err(CustomError::InvalidImpact));
        assert_eq!(category.assign_points(255), Err(CustomError::InvalidImpact));
    }
}
