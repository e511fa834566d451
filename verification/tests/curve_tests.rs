use adsr::curve::curve_function;
use adsr::{ADSRParamError, ADSRParamKind, ADSRParams};

/// The curve starts at zero and ends at the full height, exactly, for every
/// curvature factor including both extremes and the linear case.
#[test]
fn curve_boundary_values() {
    let factors: [i64; 7] = [
        -1_000_000, -500_000, -3, 0, 3, 500_000, 1_000_000,
    ];
    for &k in factors.iter() {
        for &w in [1u64, 777, 50_000_000, 2_000_000_000_000_000_000].iter() {
            assert_eq!(curve_function(0, 1_000_000, w, k), 0);
            assert_eq!(curve_function(w, 1_000_000, w, k), 1_000_000);
            assert_eq!(curve_function(0, 123_456, w, k), 0);
            assert_eq!(curve_function(w, 123_456, w, k), 123_456);
        }
    }
}

#[test]
fn curve_linear_midpoint() {
    assert_eq!(curve_function(500, 1_000_000, 1000, 0), 500_000);
    assert_eq!(curve_function(250, 1_000_000, 1000, 0), 250_000);
    // Tiny factors degenerate to the linear ratio as well.
    assert_eq!(curve_function(500, 1_000_000, 1000, 2), 500_000);
    assert_eq!(curve_function(500, 1_000_000, 1000, -2), 500_000);
}

/// At full positive curvature the ratio is 0.005, the base 199, and the
/// midpoint value is exactly h * (199 - 1) / (199^2 - 1) = h / 200.
#[test]
fn curve_full_curvature_midpoint() {
    assert_eq!(curve_function(500, 1_000_000, 1000, 1_000_000), 5_000);
}

/// A quarter-point with full positive curvature exercises the square-root
/// path of the fractional power: 10^6 * (sqrt(199) - 1) / (199^2 - 1).
#[test]
fn curve_full_curvature_quarter() {
    assert_eq!(curve_function(250, 1_000_000, 1000, 1_000_000), 330);
}

/// The curve never leaves [0, h].
#[test]
fn curve_stays_in_range() {
    for &k in [-1_000_000i64, -250_000, 0, 250_000, 1_000_000].iter() {
        for x in 0u64..=100 {
            let v = curve_function(x, 800_000, 100, k);
            assert!(v <= 800_000);
        }
    }
}

#[test]
fn param_kind_validation() {
    assert!(ADSRParamKind::AttackTime(0).is_valid());
    assert!(ADSRParamKind::AttackTime(1_000_000_000_000).is_valid());
    assert!(!ADSRParamKind::AttackTime(1_000_000_000_001).is_valid());
    assert!(ADSRParamKind::DecayTime(500_000).is_valid());
    assert!(!ADSRParamKind::DecayTime(u64::MAX).is_valid());
    assert!(ADSRParamKind::SustainLevel(1_000_000).is_valid());
    assert!(!ADSRParamKind::SustainLevel(1_000_001).is_valid());
    assert!(ADSRParamKind::ReleaseTime(1).is_valid());
    assert!(!ADSRParamKind::ReleaseTime(2_000_000_000_000).is_valid());
    assert!(ADSRParamKind::AttackCurve(-1_000_000).is_valid());
    assert!(ADSRParamKind::AttackCurve(1_000_000).is_valid());
    assert!(!ADSRParamKind::AttackCurve(1_000_001).is_valid());
    assert!(!ADSRParamKind::DecayCurve(-1_000_001).is_valid());
    assert!(ADSRParamKind::ReleaseCurve(0).is_valid());
    assert!(!ADSRParamKind::ReleaseCurve(i64::MIN).is_valid());
}

/// A rejected update reports the failure and leaves every parameter exactly
/// as it was.
#[test]
fn set_param_rejects_without_corrupting() {
    let mut p = ADSRParams::new(100_000, 200_000, 300_000, 400_000, 0, 0, 0);
    assert_eq!(
        p.set_param(ADSRParamKind::SustainLevel(1_000_001)),
        Err(ADSRParamError::OutOfRange)
    );
    assert_eq!(p.sustain_level, 300_000);
    assert_eq!(
        p.set_param(ADSRParamKind::AttackCurve(2_000_000)),
        Err(ADSRParamError::OutOfRange)
    );
    assert_eq!(p.attack_curve, 0);
    assert_eq!(p.set_param(ADSRParamKind::SustainLevel(999_999)), Ok(()));
    assert_eq!(p.sustain_level, 999_999);
    assert_eq!(p.set_param(ADSRParamKind::ReleaseTime(42)), Ok(()));
    assert_eq!(p.release_time, 42);
    assert_eq!(p.attack_time, 100_000);
    assert_eq!(p.decay_time, 200_000);
}
