use tinynn::chance::{draw_between, offset_from, random_index, span};
use tinynn::scalar::Scalar;
use tinynn::tools::activations::{abs, drelu, dsigmoid, dtanh, relu, sigmoid};

#[test]
fn integer_scalar_counts() {
    assert_eq!(i64::from_usize(0), 0);
    assert_eq!(i64::from_usize(1), 1);
    assert_eq!(i64::from_usize(784), 784);
    assert_eq!(i64::from_usize(usize::MAX), i64::MAX);
}

#[test]
fn integer_scalar_wraps() {
    assert_eq!(Scalar::add(3i64, 4i64), 7);
    assert_eq!(Scalar::add(i64::MAX, 1i64), i64::MIN);
    assert_eq!(Scalar::sub(3i64, 4i64), -1);
    assert_eq!(Scalar::sub(i64::MIN, 1i64), i64::MAX);
    assert_eq!(Scalar::mul(-3i64, 4i64), -12);
    assert_eq!(Scalar::mul(i64::MAX, 2i64), -2);
}

#[test]
fn integer_scalar_divides_toward_zero() {
    assert_eq!(Scalar::div(7i64, 2i64), 3);
    assert_eq!(Scalar::div(-7i64, 2i64), -3);
    assert_eq!(Scalar::div(7i64, -2i64), -3);
    assert_eq!(Scalar::div(-7i64, -2i64), 3);
    assert_eq!(Scalar::div(7i64, 0i64), 0);
    assert_eq!(Scalar::div(i64::MIN, -1i64), 0);
}

#[test]
fn integer_scalar_orders() {
    assert!(3i64.less(4));
    assert!(!4i64.less(4));
    assert!(!5i64.less(4));
    assert!((-1i64).less(0));
}

#[test]
fn integer_scalar_draws_inside_the_range() {
    for _ in 0..200 {
        let v = i64::uniform(-3, 3);
        assert!(-3 <= v && v < 3);
    }
    assert_eq!(i64::uniform(3, 4), 3);
    assert_eq!(i64::uniform(-1, 0), -1);
    let draws: Vec<i64> = (0..200).map(|_| i64::uniform(0, 1000)).collect();
    assert!(draws.iter().any(|v| *v != draws[0]));
}

#[test]
fn relu_clips_below_zero() {
    assert_eq!(relu(-5i64), 0);
    assert_eq!(relu(0i64), 0);
    assert_eq!(relu(7i64), 7);
}

#[test]
fn drelu_is_zero_below_zero_and_one_elsewhere() {
    for x in -50i64..0 {
        assert_eq!(drelu(x), 0);
    }
    assert_eq!(drelu(0i64), 1);
    for x in 1i64..50 {
        assert_eq!(drelu(x), 1);
    }
    assert_eq!(drelu(i64::MIN), 0);
    assert_eq!(drelu(i64::MAX), 1);
}

#[test]
fn dsigmoid_is_x_times_one_minus_x() {
    assert_eq!(dsigmoid(0i64), 0);
    assert_eq!(dsigmoid(1i64), 0);
    assert_eq!(dsigmoid(3i64), -6);
    assert_eq!(dsigmoid(-2i64), -6);
}

#[test]
fn dtanh_is_one_minus_the_square() {
    assert_eq!(dtanh(0i64), 1);
    assert_eq!(dtanh(3i64), -8);
    assert_eq!(dtanh(-3i64), -8);
}

#[test]
fn abs_is_the_magnitude() {
    assert_eq!(abs(-5i64), 5);
    assert_eq!(abs(0i64), 0);
    assert_eq!(abs(5i64), 5);
}

#[test]
fn sigmoid_is_the_logistic_form_of_the_exponential() {
    let pow = |v: i64| 1i64 << v;
    assert_eq!(sigmoid(0i64, &pow), 0);
    assert_eq!(sigmoid(3i64, &pow), 0);
    let shifted = |v: i64| -2 - v;
    assert_eq!(sigmoid(0i64, &shifted), 2);
    assert_eq!(sigmoid(8i64, &shifted), 1);
}

#[test]
fn random_index_stays_below_the_bound() {
    assert_eq!(random_index(1), 0);
    for _ in 0..200 {
        assert!(random_index(7) < 7);
    }
    let draws: Vec<usize> = (0..200).map(|_| random_index(1000)).collect();
    assert!(draws.iter().any(|v| *v != draws[0]));
    assert!(random_index(usize::MAX) < usize::MAX);
}

#[test]
fn draw_between_stays_inside_the_range() {
    assert_eq!(draw_between(-3, -2), -3);
    assert_eq!(draw_between(i64::MAX - 1, i64::MAX), i64::MAX - 1);
    assert_eq!(draw_between(i64::MIN, i64::MIN + 1), i64::MIN);
    for _ in 0..200 {
        let v = draw_between(-2, 3);
        assert!(-2 <= v && v < 3);
        assert!(draw_between(i64::MIN, i64::MAX) < i64::MAX);
    }
    let draws: Vec<i64> = (0..200).map(|_| draw_between(i64::MIN, i64::MAX)).collect();
    assert!(draws.iter().any(|v| *v < 0));
    assert!(draws.iter().any(|v| *v >= 0));
}

#[test]
fn span_counts_the_integers_of_a_range() {
    assert_eq!(span(0, 1), 1);
    assert_eq!(span(-3, 5), 8);
    assert_eq!(span(7, 1000), 993);
    assert_eq!(span(i64::MIN, 0), 1u64 << 63);
    assert_eq!(span(i64::MIN, i64::MAX), u64::MAX);
    assert_eq!(span(i64::MAX - 1, i64::MAX), 1);
}

#[test]
fn offset_from_lies_that_far_above() {
    assert_eq!(offset_from(-3, 0), -3);
    assert_eq!(offset_from(-3, 7), 4);
    assert_eq!(offset_from(5, 10), 15);
    assert_eq!(offset_from(i64::MIN, u64::MAX), i64::MAX);
    assert_eq!(offset_from(i64::MIN, 1u64 << 63), 0);
    assert_eq!(offset_from(i64::MAX, 0), i64::MAX);
    assert_eq!(offset_from(-1, span(-1, 9) - 1), 8);
}
