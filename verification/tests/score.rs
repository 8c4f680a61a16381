use memory_store::consolidation::{DEFAULT_MIN_RETENTION, DEFAULT_SIMILARITY};
use memory_store::manager::HOT_SCORE;
use memory_store::models::{DEFAULT_CONFIDENCE, DEFAULT_IMPORTANCE};
use memory_store::score::{Score, INFINITY, NEG_INFINITY, ONE, SIGN};
use memory_store::transcript::{EVENT, PREFERENCE, PROCEDURE, STACK, UNRATED};

fn samples() -> Vec<f32> {
    vec![
        0.0,
        -0.0,
        1.0,
        -1.0,
        0.5,
        0.7,
        0.15,
        2.0,
        1.0 + f32::EPSILON,
        1.0 - f32::EPSILON / 2.0,
        f32::MIN_POSITIVE,
        -f32::MIN_POSITIVE,
        f32::from_bits(1),
        f32::from_bits(0x8000_0001),
        f32::MAX,
        f32::MIN,
        f32::INFINITY,
        f32::NEG_INFINITY,
        f32::NAN,
        f32::from_bits(0xffc0_0000),
        f32::from_bits(0x7f80_0001),
    ]
}

fn score(x: f32) -> Score {
    Score::from_bits(x.to_bits())
}

#[test]
fn comparisons_agree_with_single_precision_numbers() {
    for a in samples() {
        assert_eq!(score(a).is_nan(), a.is_nan());
        assert_eq!(score(a).in_unit_range(), (0.0..=1.0).contains(&a), "{a}");
        for b in samples() {
            assert_eq!(score(a).less_than(&score(b)), a < b, "{a} < {b}");
            let order = a.total_cmp(&b);
            assert_eq!(score(a).to_total_rank().cmp(&score(b).to_total_rank()), order);
            if let Some(order) = a.partial_cmp(&b) {
                assert_eq!(score(a).to_rank().cmp(&score(b).to_rank()), order, "{a} ? {b}");
            }
        }
    }
}

#[test]
fn the_larger_number_agrees_with_max() {
    for a in samples() {
        for b in samples() {
            let max = f32::from_bits(score(a).larger(score(b)).bits);
            let expected = a.max(b);
            assert!(max == expected || (max.is_nan() && expected.is_nan()), "max {a} {b}");
        }
    }
}

#[test]
fn named_patterns_are_the_numbers_they_should_be() {
    assert_eq!(f32::from_bits(DEFAULT_MIN_RETENTION), 0.15);
    assert_eq!(f32::from_bits(DEFAULT_SIMILARITY), 0.7);
    assert_eq!(f32::from_bits(HOT_SCORE), 2.0);
    assert_eq!(f32::from_bits(DEFAULT_IMPORTANCE), 0.5);
    assert_eq!(f32::from_bits(DEFAULT_CONFIDENCE), 0.8);
    assert_eq!(f32::from_bits(ONE), 1.0);
    assert_eq!(f32::from_bits(INFINITY), f32::INFINITY);
    assert_eq!(f32::from_bits(NEG_INFINITY), f32::NEG_INFINITY);
    assert_eq!(SIGN, (-0.0f32).to_bits());
    assert_eq!(f32::from_bits(PREFERENCE), 0.7);
    assert_eq!(f32::from_bits(STACK), 0.8);
    assert_eq!(f32::from_bits(PROCEDURE), 0.75);
    assert_eq!(f32::from_bits(EVENT), 0.4);
    assert_eq!(f32::from_bits(UNRATED), 0.5);
}
