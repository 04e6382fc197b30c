use rocket_sim::time_key::{time_key_from_bits, TimeKey};

#[test]
fn finite_times_follow_their_ranks() {
    let a = TimeKey::Finite(10);
    let b = TimeKey::Finite(20);
    assert!(a.is_before(&b));
    assert!(!b.is_before(&a));
    assert!(!a.is_before(&a));
    assert!(a.is_at_or_before(&a));
    assert!(a.is_at_or_before(&b));
    assert!(!b.is_at_or_before(&a));
}

#[test]
fn infinities_bound_every_finite_time() {
    let low = TimeKey::MinusInfinity;
    let high = TimeKey::PlusInfinity;
    let zero = TimeKey::Finite(0);
    let top = TimeKey::Finite(u64::MAX);
    assert!(low.is_before(&zero));
    assert!(top.is_before(&high));
    assert!(low.is_before(&high));
    assert!(!high.is_before(&high));
    assert!(high.is_at_or_before(&high));
    assert!(low.is_at_or_before(&low));
    assert!(!high.is_at_or_before(&top));
    assert!(high.is_infinite());
    assert!(low.is_infinite());
    assert!(!top.is_infinite());
    assert!(!TimeKey::Undefined.is_infinite());
}

#[test]
fn undefined_time_compares_with_nothing() {
    let u = TimeKey::Undefined;
    for other in [TimeKey::MinusInfinity, TimeKey::Finite(5), TimeKey::PlusInfinity, TimeKey::Undefined] {
        assert!(!u.is_before(&other));
        assert!(!other.is_before(&u));
        assert!(!u.is_at_or_before(&other));
        assert!(!other.is_at_or_before(&u));
    }
}

#[test]
fn defined_times_are_totally_ordered() {
    let keys = [TimeKey::MinusInfinity, TimeKey::Finite(0), TimeKey::Finite(7), TimeKey::PlusInfinity];
    for a in keys {
        for b in keys {
            let ways = [a.is_before(&b), b.is_before(&a), a == b].iter().filter(|x| **x).count();
            assert_eq!(ways, 1);
            assert_eq!(a.is_at_or_before(&b), a.is_before(&b) || a == b);
        }
    }
}

#[test]
fn keys_from_bits_follow_the_value_order() {
    let values = [f64::NEG_INFINITY, -1.0e300, -2.5, -1.0e-300, -0.0, 0.0, 1.0e-300, 3.0, 7.5e12, f64::INFINITY];
    for a in values {
        for b in values {
            let ka = time_key_from_bits(a.to_bits());
            let kb = time_key_from_bits(b.to_bits());
            assert_eq!(ka.is_before(&kb), a < b);
            assert_eq!(ka.is_at_or_before(&kb), a <= b);
        }
    }
    assert_eq!(time_key_from_bits(f64::NAN.to_bits()), TimeKey::Undefined);
    assert_eq!(time_key_from_bits(f64::INFINITY.to_bits()), TimeKey::PlusInfinity);
    assert_eq!(time_key_from_bits(f64::NEG_INFINITY.to_bits()), TimeKey::MinusInfinity);
    assert_eq!(time_key_from_bits(0.0f64.to_bits()), TimeKey::Finite(1 << 63));
    assert_eq!(time_key_from_bits((-0.0f64).to_bits()), TimeKey::Finite(1 << 63));
    assert_eq!(time_key_from_bits(1.0f64.to_bits()), TimeKey::Finite((1 << 63) + 0x3FF0_0000_0000_0000));
}
