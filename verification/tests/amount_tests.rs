use rust_decimal::prelude::FromPrimitive;
use transaction_processing::Amount;

/// Converts a double to an `Amount` through rust_decimal, the way a
/// front-end feeds amounts into the library.
fn amount_from_f64(x: f64) -> Option<Amount> {
    let d = rust_decimal::Decimal::from_f64(x)?;
    let mantissa = d.mantissa();
    Amount::from_mantissa_scale(mantissa < 0, mantissa.unsigned_abs(), d.scale())
}

#[test]
fn test_amount_default() {
    assert_eq!(Amount::default(), Amount::zero());
}

#[test]
fn test_constants() {
    assert_eq!(Amount::zero().to_decimal_string(), "0");
    assert_eq!(
        Amount::max_value().to_decimal_string(),
        "79228162514264337593543950335"
    );
    assert_eq!(
        Amount::min_value().to_decimal_string(),
        "-79228162514264337593543950335"
    );
    assert!(Amount::zero().lt(&Amount::max_value()));
    assert!(Amount::min_value().lt(&Amount::zero()));
}

#[test]
fn amount_test_serialize() {
    let a = amount_from_f64(1.23456789).unwrap();
    assert_eq!(a.to_output_string(), "1.2346");
}

#[test]
fn test_f64_conversion() {
    assert!(amount_from_f64(f64::MAX).is_none());
    assert!(amount_from_f64(f64::MIN).is_none());
    assert_eq!(amount_from_f64(0.0).unwrap(), Amount::zero());
}

#[test]
fn test_checked_add_exact() {
    let a = amount_from_f64(1.5).unwrap();
    let b = amount_from_f64(2.25).unwrap();
    let c = a.checked_add(b).unwrap();
    assert_eq!(c.to_decimal_string(), "3.75");
}

#[test]
fn test_checked_add_overflow() {
    let max = Amount::max_value();
    let one = amount_from_f64(1.0).unwrap();
    assert!(max.checked_add(one).is_none());
    assert!(max.checked_add(max).is_none());
    assert_eq!(max.checked_add(Amount::zero()).unwrap(), max);
}

#[test]
fn test_checked_sub_exact() {
    let a = amount_from_f64(1.0).unwrap();
    let b = amount_from_f64(0.0001).unwrap();
    let c = a.checked_sub(b).unwrap();
    assert_eq!(c.to_decimal_string(), "0.9999");
}

#[test]
fn test_checked_sub_underflow() {
    let min = Amount::min_value();
    let one = amount_from_f64(1.0).unwrap();
    assert!(min.checked_sub(one).is_none());
}

#[test]
fn test_from_units_bounds() {
    assert!(Amount::from_units(i128::MAX).is_none());
    assert!(Amount::from_units(i128::MIN).is_none());
    let one = Amount::from_units(1_000_000_000).unwrap();
    assert_eq!(one, amount_from_f64(1.0).unwrap());
}

#[test]
fn test_from_mantissa_scale_excess_digits() {
    // Ten fractional digits that do not end in zero are not representable.
    assert!(Amount::from_mantissa_scale(false, 12345678901, 10).is_none());
    // The same value with a trailing zero reduces to nine digits exactly.
    let a = Amount::from_mantissa_scale(false, 12345678900, 10).unwrap();
    assert_eq!(a.to_decimal_string(), "1.23456789");
    // A large scale on a zero mantissa is still zero.
    assert_eq!(
        Amount::from_mantissa_scale(false, 0, 25).unwrap(),
        Amount::zero()
    );
}

#[test]
fn test_from_mantissa_scale_negative() {
    let a = Amount::from_mantissa_scale(true, 125, 2).unwrap();
    assert_eq!(a.to_decimal_string(), "-1.25");
    assert!(a.is_negative());
}

#[test]
fn test_round_half_to_even() {
    // Exactly half-way values round to the even fourth digit.
    let odd = Amount::from_mantissa_scale(false, 123455, 5).unwrap();
    assert_eq!(odd.to_output_string(), "1.2346");
    let even = Amount::from_mantissa_scale(false, 123445, 5).unwrap();
    assert_eq!(even.to_output_string(), "1.2344");
    // Above and below half-way round to nearest.
    let up = Amount::from_mantissa_scale(false, 1234551, 6).unwrap();
    assert_eq!(up.to_output_string(), "1.2346");
    let down = Amount::from_mantissa_scale(false, 1234449, 6).unwrap();
    assert_eq!(down.to_output_string(), "1.2344");
}

#[test]
fn test_decimal_string_shapes() {
    assert_eq!(amount_from_f64(12.34).unwrap().to_decimal_string(), "12.34");
    assert_eq!(amount_from_f64(-0.5).unwrap().to_decimal_string(), "-0.5");
    assert_eq!(amount_from_f64(1.0).unwrap().to_decimal_string(), "1");
    assert_eq!(amount_from_f64(0.25).unwrap().to_output_string(), "0.25");
}
