use brainbow::weight::Weight;

fn inside(value: f64) -> bool {
    Weight::from_bits(value.to_bits()).is_in_unit_interval()
}

#[test]
fn weight_bounds_are_inside() {
    assert!(inside(0.0));
    assert!(inside(1.0));
    assert!(inside(0.8));
    assert!(inside(0.5));
    assert!(inside(f64::MIN_POSITIVE));
    assert!(inside(5e-324));
}

#[test]
fn weight_negative_zero_is_inside() {
    assert!(inside(-0.0));
}

#[test]
fn weight_above_one_is_outside() {
    assert!(!inside(1.5));
    assert!(!inside(1.0000000000000002));
    assert!(!inside(2.0));
    assert!(!inside(f64::MAX));
    assert!(!inside(f64::INFINITY));
}

#[test]
fn weight_below_zero_is_outside() {
    assert!(!inside(-0.1));
    assert!(!inside(-5e-324));
    assert!(!inside(-1.0));
    assert!(!inside(f64::NEG_INFINITY));
}

#[test]
fn weight_not_a_number_is_outside() {
    assert!(!inside(f64::NAN));
    assert!(!inside(-f64::NAN));
}

#[test]
fn weight_keeps_its_bits() {
    let w = Weight::from_bits(0.8f64.to_bits());
    assert_eq!(w.to_bits(), 0.8f64.to_bits());
    assert_eq!(f64::from_bits(w.to_bits()), 0.8);
}

#[test]
fn weight_agrees_with_comparison_on_a_sweep() {
    let mut x = -2.0f64;
    while x <= 2.0 {
        assert_eq!(inside(x), x >= 0.0 && x <= 1.0, "at {}", x);
        x += 0.015625;
    }
}
