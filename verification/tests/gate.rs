use jesus_twin::gate::{Coverage, CoverageGate};

#[test]
fn empty_set_is_no_coverage() {
    assert_eq!(CoverageGate.classify(0, 0), Coverage::NoCoverage);
    assert_eq!(CoverageGate.classify(0, 2), Coverage::NoCoverage);
}

#[test]
fn two_or_more_legs_is_grounded() {
    assert_eq!(CoverageGate.classify(5, 2), Coverage::Grounded);
    assert_eq!(CoverageGate.classify(1, 4), Coverage::Grounded);
}

#[test]
fn single_leg_is_low_confidence() {
    assert_eq!(CoverageGate.classify(5, 1), Coverage::LowConfidence);
}

#[test]
fn zero_legs_with_passages_is_low_confidence() {
    assert_eq!(CoverageGate::new().classify(3, 0), Coverage::LowConfidence);
}

#[test]
fn more_legs_never_lower_the_tier() {
    let g = CoverageGate::new();
    for legs in 2u8..=10 {
        assert_eq!(g.classify(2, legs), Coverage::Grounded);
    }
}
