use colori_core::colors::{can_mix, mix_result, VALID_MIX_PAIRS};
use colori_core::types::Color;

#[test]
fn test_primary_mix() {
    assert!(can_mix(Color::Red, Color::Yellow));
    assert!(can_mix(Color::Red, Color::Blue));
    assert!(can_mix(Color::Yellow, Color::Blue));
    assert!(!can_mix(Color::Red, Color::Red));
}

#[test]
fn test_primary_mix_results() {
    assert_eq!(mix_result(Color::Red, Color::Yellow), Color::Orange);
    assert_eq!(mix_result(Color::Yellow, Color::Blue), Color::Green);
    assert_eq!(mix_result(Color::Red, Color::Blue), Color::Purple);
}

#[test]
fn test_secondary_tertiary_mix() {
    // Red + Orange = Vermilion
    assert!(can_mix(Color::Red, Color::Orange));
    assert_eq!(mix_result(Color::Red, Color::Orange), Color::Vermilion);

    // Yellow + Orange = Amber
    assert!(can_mix(Color::Yellow, Color::Orange));
    assert_eq!(mix_result(Color::Yellow, Color::Orange), Color::Amber);
}

#[test]
fn test_cannot_mix_secondaries() {
    assert!(!can_mix(Color::Orange, Color::Green));
    assert!(!can_mix(Color::Orange, Color::Purple));
    assert!(!can_mix(Color::Green, Color::Purple));
}

#[test]
fn test_cannot_mix_non_adjacent() {
    assert!(!can_mix(Color::Red, Color::Green));
    assert!(!can_mix(Color::Yellow, Color::Purple));
}

#[test]
fn test_valid_mix_pairs_is_exhaustive() {
    // Every pair in VALID_MIX_PAIRS must pass can_mix
    for &(a, b) in &VALID_MIX_PAIRS {
        assert!(can_mix(a, b), "{:?} and {:?} should be mixable", a, b);
    }

    // Every mixable pair must appear in VALID_MIX_PAIRS
    for i in 0..12 {
        for j in (i + 1)..12 {
            let a = Color::from_index(i);
            let b = Color::from_index(j);
            if can_mix(a, b) {
                let found = VALID_MIX_PAIRS
                    .iter()
                    .any(|&(x, y)| (x == a && y == b) || (x == b && y == a));
                assert!(found, "Mixable pair ({:?}, {:?}) missing from VALID_MIX_PAIRS", a, b);
            }
        }
    }
}

#[test]
fn test_mix_symmetry() {
    for i in 0..12 {
        for j in 0..12 {
            let a = Color::from_index(i);
            let b = Color::from_index(j);
            assert_eq!(can_mix(a, b), can_mix(b, a));
            if can_mix(a, b) {
                assert_eq!(mix_result(a, b), mix_result(b, a));
            }
        }
    }
}

#[test]
fn test_color_index_roundtrip() {
    for i in 0..12 {
        assert_eq!(Color::from_index(i).index(), i);
    }
}
