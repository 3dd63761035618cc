//! Arbitrary-precision integers. The value is held as its two's-complement
//! little-endian bytes; arithmetic is done by `num_bigint`.
use num_bigint::BigInt;
use num_traits::ToPrimitive;
use num_traits::Zero;
use core::cmp::Ordering;
use vstd::prelude::*;
use vstd::arithmetic::power::pow;

verus! {

/// The unsigned value of little-endian bytes.
pub open spec fn unsigned_le(b: Seq<u8>) -> nat
    decreases b.len(),
{
    if b.len() == 0 {
        0
    } else {
        b[0] as nat + 256 * unsigned_le(b.drop_first())
    }
}

/// `256` to the power `n`.
pub open spec fn pow256(n: nat) -> nat
    decreases n,
{
    if n == 0 {
        1
    } else {
        256 * pow256((n - 1) as nat)
    }
}

/// The value of little-endian bytes read in two's complement; no bytes is zero.
pub open spec fn signed_le(b: Seq<u8>) -> int {
    if b.len() > 0 && b.last() >= 128 {
        unsigned_le(b) - pow256(b.len())
    } else {
        unsigned_le(b) as int
    }
}

/// An arbitrary-precision signed integer.
pub struct Integer {
    /// Two's-complement little-endian bytes, as `num_bigint` writes them.
    pub bytes: Vec<u8>,
}

impl View for Integer {
    type V = int;

    open spec fn view(&self) -> int {
        signed_le(self.bytes@)
    }
}

/// Whether `c` is an ASCII decimal digit.
pub open spec fn is_digit(c: char) -> bool {
    '0' <= c && c <= '9'
}

/// The value of the decimal digit `c`.
pub open spec fn digit_value(c: char) -> nat {
    (c as u32 - '0' as u32) as nat
}

/// The decimal digit for `d < 10`.
pub open spec fn digit_char(d: nat) -> char {
    ((d + 48) as u8) as char
}

/// Whether `s` is a non-empty run of decimal digits.
pub open spec fn is_digits(s: Seq<char>) -> bool {
    s.len() > 0 && forall|i: int| 0 <= i < s.len() ==> is_digit(#[trigger] s[i])
}

/// The value of a run of decimal digits.
pub open spec fn digits_value(s: Seq<char>) -> nat
    decreases s.len(),
{
    if s.len() == 0 {
        0
    } else {
        digits_value(s.drop_last()) * 10 + digit_value(s.last())
    }
}

/// Whether `s` is an integer numeral: digits, optionally after a minus sign.
pub open spec fn is_numeral(s: Seq<char>) -> bool {
    is_digits(s) || (s.len() > 0 && s[0] == '-' && is_digits(s.drop_first()))
}

/// The value of an integer numeral.
pub open spec fn numeral_value(s: Seq<char>) -> int {
    if s.len() > 0 && s[0] == '-' {
        -digits_value(s.drop_first())
    } else {
        digits_value(s) as int
    }
}

/// The decimal digits of `n`, without leading zeros.
pub open spec fn nat_text(n: nat) -> Seq<char>
    decreases n,
{
    if n < 10 {
        seq![digit_char(n)]
    } else {
        nat_text(n / 10).push(digit_char(n % 10))
    }
}

/// The decimal text of `n`, with a minus sign when negative.
pub open spec fn int_text(n: int) -> Seq<char> {
    if n < 0 {
        seq!['-'] + nat_text((-n) as nat)
    } else {
        nat_text(n as nat)
    }
}

/// Integer division rounded toward zero: the quotient of the magnitudes,
/// negated when the signs differ.
pub open spec fn trunc_div(a: int, b: int) -> int {
    let q: int = vstd::math::abs(a) as int / vstd::math::abs(b) as int;
    if (a < 0) == (b < 0) {
        q
    } else {
        -q
    }
}

/// The remainder of [`trunc_div`]: it takes the sign of the dividend.
pub open spec fn trunc_rem(a: int, b: int) -> int {
    a - b * trunc_div(a, b)
}

proof fn lemma_digit_char(d: nat)
    requires
        d < 10,
    ensures
        is_digit(digit_char(d)),
        digit_value(digit_char(d)) == d,
{
}

proof fn lemma_nat_text(n: nat)
    ensures
        is_digits(nat_text(n)),
        digits_value(nat_text(n)) == n,
    decreases n,
{
    if n < 10 {
        lemma_digit_char(n);
        assert(nat_text(n).drop_last() =~= Seq::<char>::empty());
        assert(digits_value(Seq::<char>::empty()) == 0);
        assert(digits_value(nat_text(n)) == digits_value(nat_text(n).drop_last()) * 10 + digit_value(nat_text(n).last()));
    } else {
        lemma_nat_text(n / 10);
        lemma_digit_char(n % 10);
        let t = nat_text(n);
        assert(t.drop_last() =~= nat_text(n / 10));
        assert(t.last() == digit_char(n % 10));
        vstd::arithmetic::div_mod::lemma_fundamental_div_mod(n as int, 10);
        assert(digits_value(t) == digits_value(t.drop_last()) * 10 + digit_value(t.last()));
        assert forall|i: int| 0 <= i < t.len() implies is_digit(#[trigger] t[i]) by {
            if i < t.len() - 1 {
                assert(t[i] == nat_text(n / 10)[i]);
            }
        }
    }
}

/// Reading back the decimal text of an integer gives the integer: the text
/// is a numeral, and its value is `n`.
pub proof fn lemma_text_round_trip(n: int)
    ensures
        is_numeral(int_text(n)),
        numeral_value(int_text(n)) == n,
{
    if n < 0 {
        let m = (-n) as nat;
        lemma_nat_text(m);
        let t = int_text(n);
        assert(t.drop_first() =~= nat_text(m));
        assert(t[0] == '-');
    } else {
        lemma_nat_text(n as nat);
        let t = nat_text(n as nat);
        assert(is_digit(t[0]));
    }
}

/// The decimal digits of `n`.
pub fn usize_text(n: usize) -> (r: Vec<char>)
    ensures
        r@ == nat_text(n as nat),
    decreases n,
{
    let d = (n % 10) as u8;
    let c = (d + 48) as char;
    if n < 10 {
        let mut r: Vec<char> = Vec::new();
        r.push(c);
        r
    } else {
        let mut r = usize_text(n / 10);
        r.push(c);
        r
    }
}

/// Relies on `BigInt::from_signed_bytes_le`, `BigInt + BigInt` and
/// `BigInt::to_signed_bytes_le`: the exact sum.
#[verifier::external_body]
pub(crate) fn big_add(a: &Integer, b: &Integer) -> (r: Integer)
    ensures
        r@ == a@ + b@,
{
    let s = BigInt::from_signed_bytes_le(&a.bytes) + BigInt::from_signed_bytes_le(&b.bytes);
    Integer { bytes: s.to_signed_bytes_le() }
}

/// Relies on `BigInt - BigInt` (and the byte conversions): the exact difference.
#[verifier::external_body]
pub(crate) fn big_sub(a: &Integer, b: &Integer) -> (r: Integer)
    ensures
        r@ == a@ - b@,
{
    let s = BigInt::from_signed_bytes_le(&a.bytes) - BigInt::from_signed_bytes_le(&b.bytes);
    Integer { bytes: s.to_signed_bytes_le() }
}

/// Relies on `BigInt * BigInt` (and the byte conversions): the exact product.
#[verifier::external_body]
pub(crate) fn big_mul(a: &Integer, b: &Integer) -> (r: Integer)
    ensures
        r@ == a@ * b@,
{
    let s = BigInt::from_signed_bytes_le(&a.bytes) * BigInt::from_signed_bytes_le(&b.bytes);
    Integer { bytes: s.to_signed_bytes_le() }
}

/// Relies on `BigInt / BigInt` (and the byte conversions): the quotient
/// truncated toward zero. It panics on a zero divisor.
#[verifier::external_body]
pub(crate) fn big_div(a: &Integer, b: &Integer) -> (r: Integer)
    requires
        b@ != 0,
    ensures
        r@ == trunc_div(a@, b@),
{
    let s = BigInt::from_signed_bytes_le(&a.bytes) / BigInt::from_signed_bytes_le(&b.bytes);
    Integer { bytes: s.to_signed_bytes_le() }
}

/// Relies on `BigInt % BigInt` (and the byte conversions): the remainder of
/// the truncated quotient. It panics on a zero divisor.
#[verifier::external_body]
pub(crate) fn big_rem(a: &Integer, b: &Integer) -> (r: Integer)
    requires
        b@ != 0,
    ensures
        r@ == trunc_rem(a@, b@),
{
    let s = BigInt::from_signed_bytes_le(&a.bytes) % BigInt::from_signed_bytes_le(&b.bytes);
    Integer { bytes: s.to_signed_bytes_le() }
}

/// Relies on `BigInt::pow` (and the byte conversions): `a` to the power `e`.
#[verifier::external_body]
pub(crate) fn big_pow(a: &Integer, e: u32) -> (r: Integer)
    ensures
        r@ == pow(a@, e as nat),
{
    let s = BigInt::from_signed_bytes_le(&a.bytes).pow(e);
    Integer { bytes: s.to_signed_bytes_le() }
}

/// Relies on `-BigInt` (and the byte conversions): the negation.
#[verifier::external_body]
pub(crate) fn big_neg(a: &Integer) -> (r: Integer)
    ensures
        r@ == -a@,
{
    let s = -BigInt::from_signed_bytes_le(&a.bytes);
    Integer { bytes: s.to_signed_bytes_le() }
}

/// Relies on `num_traits::Zero::is_zero` for `BigInt`.
#[verifier::external_body]
pub(crate) fn big_is_zero(a: &Integer) -> (r: bool)
    ensures
        r == (a@ == 0),
{
    BigInt::from_signed_bytes_le(&a.bytes).is_zero()
}

/// Relies on `num_traits::ToPrimitive::to_u32` for `BigInt`: the value when
/// it lies in the range of `u32`.
#[verifier::external_body]
pub(crate) fn big_to_u32(a: &Integer) -> (r: Option<u32>)
    ensures
        r == (if 0 <= a@ <= u32::MAX { Some(a@ as u32) } else { None::<u32> }),
{
    BigInt::from_signed_bytes_le(&a.bytes).to_u32()
}

/// Relies on `Ord::cmp` for `BigInt`: the numeric order.
#[verifier::external_body]
pub(crate) fn big_cmp(a: &Integer, b: &Integer) -> (r: Ordering)
    ensures
        r == (if a@ < b@ { Ordering::Less } else if a@ == b@ { Ordering::Equal } else { Ordering::Greater }),
{
    BigInt::from_signed_bytes_le(&a.bytes).cmp(&BigInt::from_signed_bytes_le(&b.bytes))
}

/// Relies on `BigInt: FromStr`, which reads an optional sign and decimal digits.
#[verifier::external_body]
pub(crate) fn big_parse(s: &Vec<char>) -> (r: Option<Integer>)
    ensures
        is_numeral(s@) ==> r is Some && r->0@ == numeral_value(s@),
{
    match s.iter().collect::<String>().parse::<BigInt>() {
        Ok(n) => Some(Integer { bytes: n.to_signed_bytes_le() }),
        Err(_) => None,
    }
}

/// Relies on `BigInt: Display`: decimal digits with a leading `-` when negative.
#[verifier::external_body]
pub(crate) fn big_text(a: &Integer) -> (r: Vec<char>)
    ensures
        r@ == int_text(a@),
{
    BigInt::from_signed_bytes_le(&a.bytes).to_string().chars().collect()
}

} // verus!
