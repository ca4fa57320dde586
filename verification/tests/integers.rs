use stutter::arith::bigint_to_i64;
use stutter::arith::bigint_to_usize;
use stutter::arith::i64_to_bigint;
use stutter::arith::usize_to_bigint;
use stutter::error::Error;
use stutter::integer::Integer;

fn big(text: &str) -> Integer {
    Integer::parse(text).unwrap()
}

#[test]
fn integers_are_parsed_from_decimal_digits() {
    assert_eq!(big("0").to_text(), "0");
    assert_eq!(big("-0").to_text(), "0");
    assert_eq!(big("+17").to_text(), "17");
    assert_eq!(big("-17").to_text(), "-17");
    assert_eq!(big("1_000_000").to_text(), "1000000");
    assert_eq!(big("12_").to_text(), "12");
    assert_eq!(
        big("123456789012345678901234567890123456789").to_text(),
        "123456789012345678901234567890123456789"
    );
    assert_eq!(big("255"), Integer::from_i64(255));
}

#[test]
fn other_texts_are_no_integers() {
    for text in ["", "+", "-", "_1", "-_1", "+-1", "-+1", "++1", "1.5", "1e5", "a", "1a", " 1", "1 ", "٣"] {
        assert!(Integer::parse(text).is_none(), "{}", text);
    }
}

#[test]
fn integers_add_subtract_and_multiply() {
    let a = big("340282366920938463463374607431768211456");
    let b = big("-18446744073709551616");
    assert_eq!(a.add(&b), big("340282366920938463444927863358058659840"));
    assert_eq!(a.sub(&b), big("340282366920938463481821351505477763072"));
    assert_eq!(a.mul(&b), big("-6277101735386680763835789423207666416102355444464034512896"));
    assert_eq!(Integer::from_i64(2).add(&Integer::from_i64(3)), Integer::from_i64(5));
    assert_eq!(Integer::from_i64(2).sub(&Integer::from_i64(3)), Integer::from_i64(-1));
    assert_eq!(Integer::from_i64(2).mul(&Integer::from_i64(3)), Integer::from_i64(6));
}

#[test]
fn the_remainder_takes_the_sign_of_the_dividend() {
    let seven = Integer::from_i64(7);
    let minus_seven = Integer::from_i64(-7);
    let two = Integer::from_i64(2);
    let minus_two = Integer::from_i64(-2);
    assert_eq!(seven.rem(&two), Some(Integer::from_i64(1)));
    assert_eq!(minus_seven.rem(&two), Some(Integer::from_i64(-1)));
    assert_eq!(seven.rem(&minus_two), Some(Integer::from_i64(1)));
    assert_eq!(minus_seven.rem(&minus_two), Some(Integer::from_i64(-1)));
    assert_eq!(seven.rem(&Integer::from_i64(0)), None);
    assert_eq!(big("100000000000000000000").rem(&big("30000000000")), Some(big("10000000000")));
}

#[test]
fn powers_are_exact() {
    assert_eq!(Integer::from_i64(2).pow(10), Integer::from_i64(1024));
    assert_eq!(Integer::from_i64(-3).pow(3), Integer::from_i64(-27));
    assert_eq!(Integer::from_i64(0).pow(0), Integer::from_i64(1));
    assert_eq!(Integer::from_i64(10).pow(30), big("1000000000000000000000000000000"));
}

#[test]
fn integers_are_compared_by_value() {
    let a = big("-340282366920938463463374607431768211456");
    let b = Integer::from_i64(5);
    assert!(a.lt(&b));
    assert!(!b.lt(&a));
    assert!(!b.lt(&b));
    assert!(b.same(&Integer::from_i64(5)));
    assert!(!b.same(&a));
    assert!(Integer::from_i64(0).is_zero());
    assert!(!b.is_zero());
}

#[test]
fn integers_convert_where_they_fit() {
    assert_eq!(Integer::from_i64(i64::MIN).to_i64(), Some(i64::MIN));
    assert_eq!(Integer::from_i64(i64::MAX).to_i64(), Some(i64::MAX));
    assert_eq!(big("9223372036854775808").to_i64(), None);
    assert_eq!(big("-9223372036854775809").to_i64(), None);
    assert_eq!(Integer::from_usize(usize::MAX).to_usize(), Some(usize::MAX));
    assert_eq!(Integer::from_i64(-1).to_usize(), None);
    assert_eq!(Integer::from_i64(0).to_usize(), Some(0));
    assert_eq!(big("340282366920938463463374607431768211456").to_usize(), None);
    assert_eq!(Integer::from_usize(12).to_text(), "12");
    assert_eq!(Integer::from_i64(-12).to_text(), "-12");
}

#[test]
fn conversions_that_fail_are_arithmetic_errors() {
    assert_eq!(bigint_to_usize(&Integer::from_i64(7)), Ok(7));
    assert_eq!(bigint_to_usize(&Integer::from_i64(-7)), Err(Error::Arithmetic));
    assert_eq!(bigint_to_i64(&Integer::from_i64(-7)), Ok(-7));
    assert_eq!(bigint_to_i64(&big("9223372036854775808")), Err(Error::Arithmetic));
    assert_eq!(usize_to_bigint(7), Ok(Integer::from_i64(7)));
    assert_eq!(i64_to_bigint(-7), Ok(Integer::from_i64(-7)));
}

#[test]
fn the_bytes_are_two_complement_least_significant_first() {
    assert_eq!(Integer::from_i64(-1125).to_signed_bytes(), vec![155, 251]);
    assert_eq!(Integer::from_i64(0).to_signed_bytes(), vec![0]);
    assert_eq!(Integer::from_i64(128).to_signed_bytes(), vec![128, 0]);
    assert_eq!(Integer::from_i64(-128).to_signed_bytes(), vec![128]);
    assert_eq!(Integer::from_i64(5).clone(), Integer::from_i64(5));
}
