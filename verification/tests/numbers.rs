use flexbox::fixed::Fixed;
use flexbox::number::Number;
use flexbox::style::Dimension;

fn fx(n: i32) -> Fixed {
    Fixed::from_int(n)
}

#[test]
fn fixed_addition_is_exact_in_range() {
    assert_eq!(fx(2) + fx(3), fx(5));
    assert_eq!(fx(2) - fx(3), fx(-1));
}

#[test]
fn fixed_addition_saturates() {
    let top = Fixed { raw: i64::MAX };
    assert_eq!(top + fx(1), top);
    let bottom = Fixed { raw: i64::MIN };
    assert_eq!(bottom - fx(1), bottom);
    assert_eq!(-bottom, top);
}

#[test]
fn fixed_product_rounds_toward_zero() {
    assert_eq!(fx(3) * Fixed { raw: 500 }, Fixed { raw: 1500 });
    assert_eq!(Fixed { raw: 1 } * Fixed { raw: 999 }, Fixed { raw: 0 });
    assert_eq!(Fixed { raw: -1 } * Fixed { raw: 999 }, Fixed { raw: 0 });
    assert_eq!(Fixed { raw: -1500 } * fx(3), Fixed { raw: -4500 });
}

#[test]
fn fixed_quotient_rounds_toward_zero() {
    assert_eq!(fx(1) / fx(3), Fixed { raw: 333 });
    assert_eq!(fx(-1) / fx(3), Fixed { raw: -333 });
    assert_eq!(fx(1) / fx(-3), Fixed { raw: -333 });
    assert_eq!(fx(-1) / fx(-3), Fixed { raw: 333 });
}

#[test]
fn fixed_quotient_by_zero_saturates() {
    assert_eq!(fx(1) / fx(0), Fixed { raw: i64::MAX });
    assert_eq!(fx(-1) / fx(0), Fixed { raw: i64::MIN });
    assert_eq!(fx(0) / fx(0), fx(0));
}

#[test]
fn fixed_mul_div_rounds_once() {
    assert_eq!(fx(100).mul_div(fx(1), fx(3)), Fixed { raw: 33_333 });
    assert_eq!(fx(300).mul_div(fx(1), fx(3)), fx(100));
    assert_eq!(fx(10).div_int(4), Fixed { raw: 2500 });
    assert_eq!(fx(-10).div_int(4), Fixed { raw: -2500 });
}

#[test]
fn number_operators_propagate_undefined() {
    let d = Number::Defined(fx(4));
    let u = Number::Undefined;
    assert_eq!(d + u, u);
    assert_eq!(u + d, u);
    assert_eq!(u + u, u);
    assert_eq!(d - u, u);
    assert_eq!(u - d, u);
    assert_eq!(d * u, u);
    assert_eq!(u * d, u);
    assert_eq!(d / u, u);
    assert_eq!(u / d, u);
    assert_eq!(u * fx(2), u);
    assert_eq!(d.min(u), u);
    assert_eq!(u.max(d), u);
}

#[test]
fn number_operators_on_defined_operands() {
    let a = Number::Defined(fx(6));
    let b = Number::Defined(fx(3));
    assert_eq!(a + b, Number::Defined(fx(6) + fx(3)));
    assert_eq!(a - b, Number::Defined(fx(6) - fx(3)));
    assert_eq!(a * b, Number::Defined(fx(6) * fx(3)));
    assert_eq!(a / b, Number::Defined(fx(6) / fx(3)));
    assert_eq!(a + b, Number::Defined(fx(9)));
    assert_eq!(a - b, Number::Defined(fx(3)));
    assert_eq!(a * b, Number::Defined(fx(18)));
    assert_eq!(a / b, Number::Defined(fx(2)));
    assert_eq!(a * fx(2), Number::Defined(fx(12)));
    assert_eq!(a.min(b), b);
    assert_eq!(a.max(b), a);
}

#[test]
fn number_limits_skip_undefined_limits() {
    let a = Number::Defined(fx(6));
    let b = Number::Defined(fx(3));
    let u = Number::Undefined;
    assert_eq!(a.maybe_min(b), b);
    assert_eq!(a.maybe_min(u), a);
    assert_eq!(u.maybe_min(b), u);
    assert_eq!(b.maybe_max(a), a);
    assert_eq!(b.maybe_max(u), b);
    assert_eq!(u.maybe_max(a), u);
    assert_eq!(u.or_else(fx(7)), fx(7));
    assert_eq!(a.or_else(fx(7)), fx(6));
    assert!(a.is_defined());
    assert!(u.is_undefined());
}

#[test]
fn number_comparison_leaves_undefined_unordered() {
    let a = Number::Defined(fx(6));
    let b = Number::Defined(fx(3));
    let u = Number::Undefined;
    assert!(b < a);
    assert!(a > b);
    assert!(a >= a);
    assert!(!(a < u));
    assert!(!(a > u));
    assert!(!(u < a));
    assert!(!(u > a));
    assert_eq!(a.partial_cmp(&u), None);
    assert_eq!(u.partial_cmp(&u), Some(std::cmp::Ordering::Equal));
}

#[test]
fn dimension_resolution() {
    let w = Number::Defined(fx(200));
    let half = Fixed { raw: 500 };
    assert_eq!(Dimension::Points(fx(30)).resolve(w), Number::Defined(fx(30)));
    assert_eq!(Dimension::Points(fx(30)).resolve(Number::Undefined), Number::Defined(fx(30)));
    assert_eq!(Dimension::Percent(half).resolve(Number::Undefined), Number::Undefined);
    assert_eq!(Dimension::Percent(half).resolve(w), Number::Defined(fx(200) * half));
    assert_eq!(Dimension::Percent(half).resolve(w), Number::Defined(fx(100)));
    assert_eq!(Dimension::Auto.resolve(w), Number::Undefined);
    assert_eq!(Dimension::Undefined.resolve(w), Number::Undefined);
}
