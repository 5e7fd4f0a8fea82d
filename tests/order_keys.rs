use raytrace::order::{near_zero, Key};

fn key(v: f32) -> Key {
    Key::from_bits(v.to_bits()).unwrap()
}

#[test]
fn keys_follow_float_order() {
    let values = [f32::NEG_INFINITY, -3.5, -1.0, -1e-30, 0.0, 1e-30, 0.001, 2.0, 5.0, f32::INFINITY];
    for w in values.windows(2) {
        assert!(key(w[0]).rank < key(w[1]).rank);
    }
}

#[test]
fn nan_has_no_key() {
    assert_eq!(Key::from_bits(f32::NAN.to_bits()), None);
    assert_eq!(Key::from_bits((-f32::NAN).to_bits()), None);
}

#[test]
fn both_zeros_share_a_key() {
    assert_eq!(key(0.0), key(-0.0));
    assert_eq!(key(0.0).rank, 0);
}

#[test]
fn negation_negates_rank() {
    assert_eq!(key(-2.0).rank, -key(2.0).rank);
    assert_eq!(key(2.0).rank, 0x4000_0000);
}

#[test]
fn key_bits_round_trip() {
    for v in [2.5f32, -7.25, 0.999, f32::INFINITY, f32::NEG_INFINITY] {
        assert_eq!(key(v).to_bits(), v.to_bits());
    }
    assert_eq!(key(-0.0).to_bits(), 0.0f32.to_bits());
}

#[test]
fn near_zero_needs_every_component_small() {
    let eps = key(1e-8);
    let k = |v: f32| Key::from_bits(v.to_bits());
    assert!(near_zero(k(0.0), k(-5e-9), k(9e-9), eps));
    assert!(!near_zero(k(0.0), k(0.0), k(1e-8), eps));
    assert!(!near_zero(k(-1e-8), k(0.0), k(0.0), eps));
    assert!(!near_zero(k(0.0), k(0.5), k(0.0), eps));
    assert!(!near_zero(k(f32::NAN), k(0.0), k(0.0), eps));
}
