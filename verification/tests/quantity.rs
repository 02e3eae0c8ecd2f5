use wavefront::order::{median, sort};
use wavefront::quantity::{Quantity, ONE, ZERO};

fn q(x: f64) -> Quantity {
    Quantity::new(x.to_bits())
}

fn values() -> Vec<f64> {
    vec![
        f64::NEG_INFINITY,
        f64::MIN,
        -2.5,
        -1.0,
        -f64::MIN_POSITIVE,
        -5e-324,
        -0.0,
        0.0,
        5e-324,
        0.3,
        1.0,
        60.0,
        1.7e12,
        f64::MAX,
        f64::INFINITY,
        f64::NAN,
        -f64::NAN,
    ]
}

#[test]
fn comparisons_agree_with_the_hardware() {
    for a in values() {
        for b in values() {
            assert_eq!(q(a).lt(&q(b)), a < b, "{a} < {b}");
            assert_eq!(q(a).le(&q(b)), a <= b, "{a} <= {b}");
        }
        assert_eq!(q(a).is_nan(), a.is_nan());
    }
}

#[test]
fn named_patterns_are_the_numbers() {
    assert_eq!(q(0.0), Quantity::new(ZERO));
    assert_eq!(q(1.0), Quantity::new(ONE));
}

#[test]
fn zeros_stand_at_one_place() {
    assert!(!q(-0.0).lt(&q(0.0)));
    assert!(q(-0.0).le(&q(0.0)) && q(0.0).le(&q(-0.0)));
    assert!(!q(-0.0).precedes(&q(0.0)));
    assert!(q(-1.0).precedes(&q(-0.5)));
}

#[test]
fn clamping_agrees_with_the_hardware() {
    for a in values() {
        let r = q(a).clamp(&q(0.0), &q(1.0));
        let expected = a.clamp(0.0, 1.0);
        if a.is_nan() {
            assert!(r.is_nan());
        } else {
            assert_eq!(f64::from_bits(r.bits), expected);
        }
    }
}

#[test]
fn sorting_keeps_every_quantity() {
    let list: Vec<Quantity> = [3.0, -1.0, 2.0, 3.0, -0.5].iter().map(|x| q(*x)).collect();
    let sorted: Vec<f64> = sort(&list).iter().map(|x| f64::from_bits(x.bits)).collect();
    assert_eq!(sorted, vec![-1.0, -0.5, 2.0, 3.0, 3.0]);
    assert!(sort(&Vec::new()).is_empty());
}

#[test]
fn median_is_the_upper_one_of_two() {
    let even: Vec<Quantity> = [4.0, 1.0, 3.0, 2.0].iter().map(|x| q(*x)).collect();
    assert_eq!(median(&even), q(3.0));
    let odd: Vec<Quantity> = [-4.0, 9.0, 0.0].iter().map(|x| q(*x)).collect();
    assert_eq!(median(&odd), q(0.0));
    assert_eq!(median(&vec![q(7.0)]), q(7.0));
}
