//! Integers of arbitrary size.
//!
//! An `Integer` holds the two's-complement bytes of a number, least
//! significant byte first. All arithmetic is done by `num_bigint`; the
//! functions that call it are trusted and say, over `int`, what the call
//! returns.

use num_bigint::BigInt;
use num_traits::ToPrimitive;
use vstd::prelude::*;

verus! {

/// The number that `bytes` spell in two's complement, least significant
/// byte first. No bytes spell zero.
pub open spec fn signed_value(bytes: Seq<u8>) -> int
    decreases bytes.len(),
{
    if bytes.len() == 0 {
        0
    } else if bytes.len() == 1 {
        if bytes[0] < 128 {
            bytes[0] as int
        } else {
            bytes[0] - 256
        }
    } else {
        bytes[0] + 256 * signed_value(bytes.skip(1))
    }
}

/// The remainder of `a` by `b` that takes the sign of `a` and has a smaller
/// magnitude than `b`.
pub open spec fn truncated_rem(a: int, b: int) -> int
    recommends
        b != 0,
{
    let m = if b < 0 { -b } else { b };
    if a >= 0 {
        a % m
    } else {
        -((-a) % m)
    }
}

/// The character that stands for the digit `d`.
pub open spec fn digit_char(d: nat) -> char
    recommends
        d < 10,
{
    if d == 0 {
        '0'
    } else if d == 1 {
        '1'
    } else if d == 2 {
        '2'
    } else if d == 3 {
        '3'
    } else if d == 4 {
        '4'
    } else if d == 5 {
        '5'
    } else if d == 6 {
        '6'
    } else if d == 7 {
        '7'
    } else if d == 8 {
        '8'
    } else {
        '9'
    }
}

/// The decimal digits of `n`, most significant first, without leading zeros.
pub open spec fn digits_text(n: nat) -> Seq<char>
    decreases n,
{
    if n < 10 {
        seq![digit_char(n)]
    } else {
        digits_text(n / 10).push(digit_char(n % 10))
    }
}

/// How a number is written: its decimal digits, after `-` if it is negative.
pub open spec fn decimal_text(n: int) -> Seq<char> {
    if n < 0 {
        seq!['-'] + digits_text((-n) as nat)
    } else {
        digits_text(n as nat)
    }
}

/// Whether `c` is one of `0` to `9`.
pub open spec fn is_digit(c: char) -> bool {
    '0' <= c && c <= '9'
}

/// The number that the digits of `text` spell, read from the left;
/// a `_` between them counts for nothing.
pub open spec fn digits_value(text: Seq<char>) -> nat
    decreases text.len(),
{
    if text.len() == 0 {
        0
    } else if text.last() == '_' {
        digits_value(text.drop_last())
    } else {
        (10 * digits_value(text.drop_last()) + (text.last() as u32 - '0' as u32)) as nat
    }
}

/// Whether `text` is a digit followed by digits and `_` only.
pub open spec fn is_digit_run(text: Seq<char>) -> bool {
    &&& text.len() > 0
    &&& is_digit(text[0])
    &&& forall|i: int| 0 <= i < text.len() ==> is_digit(#[trigger] text[i]) || text[i] == '_'
}

/// Whether `text` is written as an integer: an optional `+` or `-`, then a
/// digit, then digits and `_`.
pub open spec fn is_integer_text(text: Seq<char>) -> bool {
    if text.len() > 0 && (text[0] == '-' || text[0] == '+') {
        is_digit_run(text.skip(1))
    } else {
        is_digit_run(text)
    }
}

/// The number that an integer text stands for.
pub open spec fn integer_text_value(text: Seq<char>) -> int
    recommends
        is_integer_text(text),
{
    if text.len() > 0 && text[0] == '-' {
        -(digits_value(text.skip(1)) as int)
    } else if text.len() > 0 && text[0] == '+' {
        digits_value(text.skip(1)) as int
    } else {
        digits_value(text) as int
    }
}

/// An integer of any size.
#[derive(Debug, PartialEq, Eq)]
pub struct Integer {
    bytes: Vec<u8>,
}

impl View for Integer {
    type V = int;

    closed spec fn view(&self) -> int {
        signed_value(self.bytes@)
    }
}

impl Clone for Integer {
    fn clone(&self) -> (r: Self)
        ensures
            r@ == self@,
    {
        Integer { bytes: self.bytes.clone() }
    }
}

/// `BigInt::parse_bytes` in base ten. It accepts an optional sign, then a
/// digit, then digits and `_`, and nothing else; the digits are read as a
/// decimal number.
#[verifier::external_body]
fn integer_parse(text: &str) -> (r: Option<Integer>)
    ensures
        r is Some <==> is_integer_text(text@),
        r matches Some(n) ==> n@ == integer_text_value(text@),
{
    match BigInt::parse_bytes(text.as_bytes(), 10) {
        Some(n) => Some(Integer { bytes: n.to_signed_bytes_le() }),
        None => None,
    }
}

/// `+` of `BigInt`: the sum.
#[verifier::external_body]
fn integer_add(a: &Integer, b: &Integer) -> (r: Integer)
    ensures
        r@ == a@ + b@,
{
    let x = BigInt::from_signed_bytes_le(&a.bytes);
    let y = BigInt::from_signed_bytes_le(&b.bytes);
    Integer { bytes: (x + y).to_signed_bytes_le() }
}

/// `-` of `BigInt`: the difference.
#[verifier::external_body]
fn integer_sub(a: &Integer, b: &Integer) -> (r: Integer)
    ensures
        r@ == a@ - b@,
{
    let x = BigInt::from_signed_bytes_le(&a.bytes);
    let y = BigInt::from_signed_bytes_le(&b.bytes);
    Integer { bytes: (x - y).to_signed_bytes_le() }
}

/// `*` of `BigInt`: the product.
#[verifier::external_body]
fn integer_mul(a: &Integer, b: &Integer) -> (r: Integer)
    ensures
        r@ == a@ * b@,
{
    let x = BigInt::from_signed_bytes_le(&a.bytes);
    let y = BigInt::from_signed_bytes_le(&b.bytes);
    Integer { bytes: (x * y).to_signed_bytes_le() }
}

/// `%` of `BigInt`, which panics on a zero divisor: the remainder that
/// takes the sign of the dividend.
#[verifier::external_body]
fn integer_rem(a: &Integer, b: &Integer) -> (r: Integer)
    requires
        b@ != 0,
    ensures
        r@ == truncated_rem(a@, b@),
{
    let x = BigInt::from_signed_bytes_le(&a.bytes);
    let y = BigInt::from_signed_bytes_le(&b.bytes);
    Integer { bytes: (x % y).to_signed_bytes_le() }
}

/// `num_traits::pow`, which multiplies by repeated squaring: the base
/// raised to `exp`, and one where `exp` is zero.
#[verifier::external_body]
fn integer_pow(base: &Integer, exp: usize) -> (r: Integer)
    ensures
        r@ == vstd::arithmetic::power::pow(base@, exp as nat),
{
    let x = BigInt::from_signed_bytes_le(&base.bytes);
    Integer { bytes: num_traits::pow(x, exp).to_signed_bytes_le() }
}

/// `<` of `BigInt`: whether the first number is the smaller.
#[verifier::external_body]
fn integer_lt(a: &Integer, b: &Integer) -> (r: bool)
    ensures
        r == (a@ < b@),
{
    BigInt::from_signed_bytes_le(&a.bytes) < BigInt::from_signed_bytes_le(&b.bytes)
}

/// `==` of `BigInt`: whether the two numbers are the same.
#[verifier::external_body]
fn integer_eq(a: &Integer, b: &Integer) -> (r: bool)
    ensures
        r == (a@ == b@),
{
    BigInt::from_signed_bytes_le(&a.bytes) == BigInt::from_signed_bytes_le(&b.bytes)
}

/// `ToPrimitive::to_usize` of `BigInt`: the number, where a `usize` can
/// hold it.
#[verifier::external_body]
fn integer_to_usize(a: &Integer) -> (r: Option<usize>)
    ensures
        r is Some <==> 0 <= a@ <= usize::MAX,
        r matches Some(n) ==> n == a@,
{
    BigInt::from_signed_bytes_le(&a.bytes).to_usize()
}

/// `ToPrimitive::to_i64` of `BigInt`: the number, where an `i64` can hold
/// it.
#[verifier::external_body]
fn integer_to_i64(a: &Integer) -> (r: Option<i64>)
    ensures
        r is Some <==> i64::MIN <= a@ <= i64::MAX,
        r matches Some(n) ==> n == a@,
{
    BigInt::from_signed_bytes_le(&a.bytes).to_i64()
}

/// `ToBigInt::to_bigint` of `i64`, which never fails: the same number.
#[verifier::external_body]
fn integer_from_i64(n: i64) -> (r: Option<Integer>)
    ensures
        r is Some,
        r matches Some(i) ==> i@ == n,
{
    match num_bigint::ToBigInt::to_bigint(&n) {
        Some(b) => Some(Integer { bytes: b.to_signed_bytes_le() }),
        None => None,
    }
}

/// `ToBigInt::to_bigint` of `usize`, which never fails: the same number.
#[verifier::external_body]
fn integer_from_usize(n: usize) -> (r: Option<Integer>)
    ensures
        r is Some,
        r matches Some(i) ==> i@ == n,
{
    match num_bigint::ToBigInt::to_bigint(&n) {
        Some(b) => Some(Integer { bytes: b.to_signed_bytes_le() }),
        None => None,
    }
}

/// `to_string` of `BigInt`: the decimal digits, after `-` for a negative
/// number.
#[verifier::external_body]
fn integer_to_string(a: &Integer) -> (r: String)
    ensures
        r@ == decimal_text(a@),
{
    BigInt::from_signed_bytes_le(&a.bytes).to_string()
}

impl Integer {
    /// The integer that `text` is written as, if it is written as one.
    pub fn parse(text: &str) -> (r: Option<Integer>)
        ensures
            r is Some <==> is_integer_text(text@),
            r matches Some(n) ==> n@ == integer_text_value(text@),
    {
        integer_parse(text)
    }

    /// The sum of the two.
    pub fn add(&self, other: &Integer) -> (r: Integer)
        ensures
            r@ == self@ + other@,
    {
        integer_add(self, other)
    }

    /// The first less the second.
    pub fn sub(&self, other: &Integer) -> (r: Integer)
        ensures
            r@ == self@ - other@,
    {
        integer_sub(self, other)
    }

    /// The product of the two.
    pub fn mul(&self, other: &Integer) -> (r: Integer)
        ensures
            r@ == self@ * other@,
    {
        integer_mul(self, other)
    }

    /// The remainder of the first by the second, with the sign of the
    /// first; none where the second is zero.
    pub fn rem(&self, other: &Integer) -> (r: Option<Integer>)
        ensures
            r is Some <==> other@ != 0,
            r matches Some(n) ==> n@ == truncated_rem(self@, other@),
    {
        if other.is_zero() {
            None
        } else {
            Some(integer_rem(self, other))
        }
    }

    /// The number raised to `exp`; every number raised to zero is one.
    pub fn pow(&self, exp: usize) -> (r: Integer)
        ensures
            r@ == vstd::arithmetic::power::pow(self@, exp as nat),
    {
        integer_pow(self, exp)
    }

    /// Whether the first is the smaller.
    pub fn lt(&self, other: &Integer) -> (r: bool)
        ensures
            r == (self@ < other@),
    {
        integer_lt(self, other)
    }

    /// Whether the two are the same number.
    pub fn same(&self, other: &Integer) -> (r: bool)
        ensures
            r == (self@ == other@),
    {
        integer_eq(self, other)
    }

    /// Whether the number is zero.
    pub fn is_zero(&self) -> (r: bool)
        ensures
            r == (self@ == 0),
    {
        let zero = Integer::from_i64(0);
        integer_eq(self, &zero)
    }

    /// The number as an `i64`.
    pub fn from_i64(n: i64) -> (r: Integer)
        ensures
            r@ == n,
    {
        match integer_from_i64(n) {
            Some(i) => i,
            // Never taken: the conversion gives a number for every `i64`.
            None => Integer { bytes: Vec::new() },
        }
    }

    /// The number as a `usize`.
    pub fn from_usize(n: usize) -> (r: Integer)
        ensures
            r@ == n,
    {
        match integer_from_usize(n) {
            Some(i) => i,
            // Never taken: the conversion gives a number for every `usize`.
            None => Integer { bytes: Vec::new() },
        }
    }

    /// The number, where it is one that a `usize` holds.
    pub fn to_usize(&self) -> (r: Option<usize>)
        ensures
            r is Some <==> 0 <= self@ <= usize::MAX,
            r matches Some(n) ==> n == self@,
    {
        integer_to_usize(self)
    }

    /// The number, where it is one that an `i64` holds.
    pub fn to_i64(&self) -> (r: Option<i64>)
        ensures
            r is Some <==> i64::MIN <= self@ <= i64::MAX,
            r matches Some(n) ==> n == self@,
    {
        integer_to_i64(self)
    }

    /// The number in decimal digits.
    pub fn to_text(&self) -> (r: String)
        ensures
            r@ == decimal_text(self@),
    {
        integer_to_string(self)
    }

    /// The bytes of the number in two's complement, least significant
    /// first.
    pub fn to_signed_bytes(&self) -> (r: Vec<u8>)
        ensures
            signed_value(r@) == self@,
    {
        self.bytes.clone()
    }
}

} // verus!
