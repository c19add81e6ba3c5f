use r_ecipe_s::score::{Score, SIMILARITY_THRESHOLD_BITS, ZERO_BITS};

fn of(value: f32) -> Score {
    Score::from_bits(value.to_bits())
}

fn samples() -> Vec<f32> {
    vec![
        f32::NEG_INFINITY,
        f32::MIN,
        -1.0e10,
        -2.5,
        -1.0,
        -0.25,
        -f32::MIN_POSITIVE,
        -1.0e-45,
        -0.0,
        0.0,
        1.0e-45,
        f32::MIN_POSITIVE,
        0.1,
        0.24999999,
        0.25,
        0.25000003,
        0.5,
        0.6,
        1.0,
        1.1640368,
        2.0,
        1.0e10,
        f32::MAX,
        f32::INFINITY,
    ]
}

#[test]
fn the_key_orders_scores_as_numbers_are_ordered() {
    let values = samples();
    for a in &values {
        for b in &values {
            let ka = of(*a).rank_key();
            let kb = of(*b).rank_key();
            assert_eq!(ka < kb, a < b, "{} and {}", a, b);
            assert_eq!(ka == kb, a == b, "{} and {}", a, b);
        }
    }
}

#[test]
fn the_keys_of_some_scores() {
    assert_eq!(of(0.0).rank_key(), 0x8000_0000);
    assert_eq!(of(-0.0).rank_key(), 0x8000_0000);
    assert_eq!(of(0.25).rank_key(), 0xbe80_0000);
    assert_eq!(of(1.0).rank_key(), 0xbf80_0000);
    assert_eq!(of(-1.0).rank_key(), 0x8000_0000 - 0x3f80_0000);
    assert_eq!(of(f32::INFINITY).rank_key(), 0xff80_0000);
    assert_eq!(of(f32::NEG_INFINITY).rank_key(), 0x0080_0000);
}

#[test]
fn the_constants_are_the_patterns_of_zero_and_one_quarter() {
    assert_eq!(ZERO_BITS, 0.0f32.to_bits());
    assert_eq!(SIMILARITY_THRESHOLD_BITS, 0.25f32.to_bits());
    assert_eq!(Score::zero(), of(0.0));
}

#[test]
fn the_threshold_is_reached_from_one_quarter_on() {
    for value in samples() {
        assert_eq!(of(value).reaches_threshold(), value >= 0.25, "{}", value);
    }
}

#[test]
fn what_is_not_a_number_is_told_apart() {
    assert!(of(f32::NAN).is_nan());
    assert!(Score::from_bits(0xffc0_0001).is_nan());
    assert!(Score::from_bits(0x7f80_0001).is_nan());
    for value in samples() {
        assert!(!of(value).is_nan(), "{}", value);
    }
}

#[test]
fn a_score_keeps_its_pattern() {
    for bits in [0u32, 1, 0x3e80_0000, 0x8000_0000, 0xffff_ffff] {
        assert_eq!(Score::from_bits(bits).bits, bits);
    }
}
