//! 64-bit IEEE-754 floats, held as their bit patterns. Comparison, negation
//! and the near-zero test are read off the bits here; arithmetic, conversion,
//! parsing and formatting come from the host through [`FloatArith`].
use vstd::prelude::*;
use crate::integer::Integer;

verus! {

/// The host's float operations on bit patterns.
pub trait FloatArith {
    /// The float that the literal `text` (digits, a dot, digits) denotes, or
    /// `None` when the host cannot read it.
    fn parse_float(&self, text: &Vec<char>) -> Option<u64>;

    /// The float nearest to `n`, or `None` when `n` has no float form.
    fn from_integer(&self, n: &Integer) -> Option<u64>;

    /// `a op b` for `op` one of `+ - * / % ^` (`^` is a float power).
    fn apply(&self, op: char, a: u64, b: u64) -> u64;

    /// The display text of the float `a`: its decimal form, with `.0` added
    /// when that form has no fractional part, so that a finite float always
    /// displays with a dot.
    fn render(&self, a: u64) -> Vec<char>;
}

/// `2^63`: the sign bit.
pub const SIGN_BIT: u64 = 0x8000_0000_0000_0000;

/// The bits of positive infinity; larger magnitudes are NaNs.
pub const INFINITY_BITS: u64 = 0x7ff0_0000_0000_0000;

/// The bits of `2^-52`, the machine epsilon.
pub const EPSILON_BITS: u64 = 0x3cb0_0000_0000_0000;

/// The bits without the sign.
pub open spec fn magnitude(b: u64) -> nat {
    (b % SIGN_BIT) as nat
}

/// Whether the bits hold a NaN.
pub open spec fn is_nan(b: u64) -> bool {
    magnitude(b) > INFINITY_BITS
}

/// A number that orders the floats that are not NaN as their values do;
/// both zeros get `0`.
pub open spec fn order_key(b: u64) -> int {
    if b >= SIGN_BIT {
        -magnitude(b)
    } else {
        magnitude(b) as int
    }
}

/// IEEE-754 equality.
pub open spec fn float_eq(a: u64, b: u64) -> bool {
    !is_nan(a) && !is_nan(b) && order_key(a) == order_key(b)
}

/// IEEE-754 `<`.
pub open spec fn float_lt(a: u64, b: u64) -> bool {
    !is_nan(a) && !is_nan(b) && order_key(a) < order_key(b)
}

/// Whether `|a|` is below the machine epsilon.
pub open spec fn near_zero(a: u64) -> bool {
    magnitude(a) < EPSILON_BITS
}

/// The float `-a`: the sign bit flipped.
pub open spec fn negated(a: u64) -> u64 {
    if a >= SIGN_BIT {
        (a - SIGN_BIT) as u64
    } else {
        (a + SIGN_BIT) as u64
    }
}

pub fn float_key(a: u64) -> (r: (bool, u64))
    ensures
        r.0 == (a >= SIGN_BIT),
        r.1 == magnitude(a),
{
    (a >= SIGN_BIT, a % SIGN_BIT)
}

/// IEEE-754 equality of two floats.
pub fn float_equal(a: u64, b: u64) -> (r: bool)
    ensures
        r == float_eq(a, b),
{
    let (sa, ma) = float_key(a);
    let (sb, mb) = float_key(b);
    if ma > INFINITY_BITS || mb > INFINITY_BITS {
        false
    } else if ma == 0 && mb == 0 {
        true
    } else {
        sa == sb && ma == mb
    }
}

/// IEEE-754 `a < b`.
pub fn float_less(a: u64, b: u64) -> (r: bool)
    ensures
        r == float_lt(a, b),
{
    let (sa, ma) = float_key(a);
    let (sb, mb) = float_key(b);
    if ma > INFINITY_BITS || mb > INFINITY_BITS {
        false
    } else if sa && sb {
        mb < ma
    } else if sa {
        !(ma == 0 && mb == 0)
    } else if sb {
        false
    } else {
        ma < mb
    }
}

/// The float `-a`.
pub fn float_negate(a: u64) -> (r: u64)
    ensures
        r == negated(a),
{
    if a >= SIGN_BIT {
        a - SIGN_BIT
    } else {
        a + SIGN_BIT
    }
}

/// Whether `|a|` is below the machine epsilon.
pub fn float_near_zero(a: u64) -> (r: bool)
    ensures
        r == near_zero(a),
{
    a % SIGN_BIT < EPSILON_BITS
}

} // verus!
