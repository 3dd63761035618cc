//! Runtime values and the operators on them.
use vstd::prelude::*;
use vstd::arithmetic::power::pow;
use core::cmp::Ordering;
use crate::float::FloatArith;
use crate::float::float_eq;
use crate::float::float_equal;
use crate::float::float_less;
use crate::float::float_lt;
use crate::float::float_near_zero;
use crate::float::float_negate;
use crate::float::near_zero;
use crate::float::negated;
use crate::integer::Integer;
use crate::integer::big_add;
use crate::integer::big_cmp;
use crate::integer::big_div;
use crate::integer::big_is_zero;
use crate::integer::big_mul;
use crate::integer::big_neg;
use crate::integer::big_pow;
use crate::integer::big_rem;
use crate::integer::big_sub;
use crate::integer::big_text;
use crate::integer::big_to_u32;
use crate::integer::int_text;
use crate::integer::trunc_div;
use crate::integer::trunc_rem;
use crate::text::chars_of;
use crate::text::copy_chars;
use crate::text::is_word;
use crate::text::push_all;
use crate::text::push_str;

verus! {

/// A runtime value.
pub enum Value {
    Integer(Integer),
    /// The bits of a 64-bit IEEE-754 float.
    Float(u64),
    String(Vec<char>),
    Boolean(bool),
    Void,
}

/// The mathematical form of a [`Value`].
pub enum Val {
    Int(int),
    Float(u64),
    Str(Seq<char>),
    Bool(bool),
    Void,
}

impl View for Value {
    type V = Val;

    open spec fn view(&self) -> Val {
        match self {
            Value::Integer(n) => Val::Int(n@),
            Value::Float(b) => Val::Float(*b),
            Value::String(s) => Val::Str(s@),
            Value::Boolean(b) => Val::Bool(*b),
            Value::Void => Val::Void,
        }
    }
}

/// A copy of an integer.
pub fn copy_integer(n: &Integer) -> (r: Integer)
    ensures
        r@ == n@,
{
    let mut bytes: Vec<u8> = Vec::new();
    let mut i: usize = 0;
    while i < n.bytes.len()
        invariant
            i <= n.bytes@.len(),
            bytes@ == n.bytes@.subrange(0, i as int),
        decreases n.bytes@.len() - i,
    {
        bytes.push(n.bytes[i]);
        i = i + 1;
        assert(n.bytes@.subrange(0, i as int) == n.bytes@.subrange(0, i - 1).push(n.bytes@[i - 1]));
    }
    assert(n.bytes@.subrange(0, n.bytes@.len() as int) == n.bytes@);
    Integer { bytes }
}

impl Value {
    /// Whether the value is an Integer or a Float.
    pub fn is_number(&self) -> (r: bool)
        ensures
            r == (self is Integer || self is Float),
    {
        matches!(self, Value::Integer(_) | Value::Float(_))
    }

    /// A copy of the value.
    pub fn copy(&self) -> (r: Value)
        ensures
            r@ == self@,
    {
        match self {
            Value::Integer(n) => Value::Integer(copy_integer(n)),
            Value::Float(b) => Value::Float(*b),
            Value::String(s) => Value::String(copy_chars(s)),
            Value::Boolean(b) => Value::Boolean(*b),
            Value::Void => Value::Void,
        }
    }

    /// The display form: strings in double quotes, booleans as `true` or
    /// `false`, the absence of a value as `void`.
    pub fn display<F: FloatArith>(&self, fl: &F) -> (r: Vec<char>)
        ensures
            !(self is Float) ==> r@ == display_text(self@),
            self is Integer ==> r@ == int_text(self->Integer_0@),
            self is String ==> r@ == seq!['"'] + self->String_0@ + seq!['"'],
            self is Boolean ==> r@ == (if self->Boolean_0 { "true"@ } else { "false"@ }),
            self is Void ==> r@ == "void"@,
    {
        match self {
            Value::Integer(n) => big_text(n),
            Value::Float(b) => fl.render(*b),
            Value::String(s) => {
                let mut r: Vec<char> = Vec::new();
                r.push('"');
                push_all(&mut r, s);
                r.push('"');
                proof {
                    assert(r@ =~= seq!['"'] + s@ + seq!['"']);
                }
                r
            },
            Value::Boolean(b) => chars_of(if *b { "true" } else { "false" }),
            Value::Void => chars_of("void"),
        }
    }

    /// The printed form: as [`Value::display`], but strings without quotes.
    pub fn printable<F: FloatArith>(&self, fl: &F) -> (r: Vec<char>)
        ensures
            !(self is Float) ==> r@ == print_text(self@),
            self is Integer ==> r@ == int_text(self->Integer_0@),
            self is String ==> r@ == self->String_0@,
            self is Boolean ==> r@ == (if self->Boolean_0 { "true"@ } else { "false"@ }),
            self is Void ==> r@ == "void"@,
    {
        match self {
            Value::String(s) => copy_chars(s),
            _ => self.display(fl),
        }
    }

    /// The name of the value's variant, for diagnostics.
    pub fn variant_name(&self) -> (r: &'static str) {
        match self {
            Value::Integer(_) => "Integer",
            Value::Float(_) => "Float",
            Value::String(_) => "String",
            Value::Boolean(_) => "Boolean",
            Value::Void => "Void",
        }
    }
}

/// The display form of a value that is not a Float: as [`print_text`],
/// but a string in double quotes.
pub open spec fn display_text(v: Val) -> Seq<char> {
    match v {
        Val::Str(s) => seq!['"'] + s + seq!['"'],
        _ => print_text(v),
    }
}

/// The printed form of a value that is not a Float.
pub open spec fn print_text(v: Val) -> Seq<char> {
    match v {
        Val::Int(n) => int_text(n),
        Val::Str(s) => s,
        Val::Bool(b) => if b { "true"@ } else { "false"@ },
        _ => "void"@,
    }
}

/// A diagnostic: `msg` followed by the variants of `l` and `r`.
fn type_error(msg: &str, op: &Vec<char>, l: &Value, r: &Value) -> Vec<char> {
    let mut m = chars_of(msg);
    push_str(&mut m, " '");
    push_all(&mut m, op);
    push_str(&mut m, "': ");
    push_str(&mut m, l.variant_name());
    push_str(&mut m, " and ");
    push_str(&mut m, r.variant_name());
    m
}

/// Integer arithmetic: the result of `a op b`, or `None` where it raises
/// (division or remainder by zero, an exponent outside `0 ..= u32::MAX`, an
/// unknown operator).
pub open spec fn int_arith(op: char, a: int, b: int) -> Option<int> {
    if op == '+' {
        Some(a + b)
    } else if op == '-' {
        Some(a - b)
    } else if op == '*' {
        Some(a * b)
    } else if op == '/' {
        if b == 0 { None } else { Some(trunc_div(a, b)) }
    } else if op == '%' {
        if b == 0 { None } else { Some(trunc_rem(a, b)) }
    } else if op == '^' {
        if 0 <= b <= u32::MAX { Some(pow(a, b as nat)) } else { None }
    } else {
        None
    }
}

/// Any integer to the power zero is one, an Integer.
pub proof fn lemma_zero_exponent(a: int)
    ensures
        int_arith('^', a, 0) == Some(1int),
{
    vstd::arithmetic::power::lemma_pow0(a);
}

/// Integer division and remainder by zero raise.
pub proof fn lemma_integer_zero_divisor(a: int)
    ensures
        int_arith('/', a, 0) is None,
        int_arith('%', a, 0) is None,
{
}

/// Whether `op` is one of `+ - * / % ^`.
pub open spec fn is_arith(op: char) -> bool {
    op == '+' || op == '-' || op == '*' || op == '/' || op == '%' || op == '^'
}

/// Whether a float divisor counts as zero: an Integer zero, or a Float
/// within the machine epsilon of zero.
pub open spec fn zero_divisor(v: Val) -> bool {
    match v {
        Val::Int(n) => n == 0,
        Val::Float(b) => near_zero(b),
        _ => false,
    }
}

/// Whether `v` is an Integer or a Float.
pub open spec fn is_num(v: Val) -> bool {
    v is Int || v is Float
}

/// Integer `a op b`.
fn integer_arith(op: char, a: &Integer, b: &Integer) -> (r: Option<Integer>)
    ensures
        r is Some == int_arith(op, a@, b@) is Some,
        r is Some ==> r->0@ == int_arith(op, a@, b@)->0,
{
    if op == '+' {
        Some(big_add(a, b))
    } else if op == '-' {
        Some(big_sub(a, b))
    } else if op == '*' {
        Some(big_mul(a, b))
    } else if op == '/' {
        if big_is_zero(b) { None } else { Some(big_div(a, b)) }
    } else if op == '%' {
        if big_is_zero(b) { None } else { Some(big_rem(a, b)) }
    } else if op == '^' {
        match big_to_u32(b) {
            Some(e) => Some(big_pow(a, e)),
            None => None,
        }
    } else {
        None
    }
}

/// A number as a float, through the host.
fn as_float<F: FloatArith>(fl: &F, v: &Value) -> (r: Option<u64>)
    requires
        v is Integer || v is Float,
    ensures
        v is Float ==> r == Some(v->Float_0),
{
    match v {
        Value::Float(b) => Some(*b),
        Value::Integer(n) => fl.from_integer(n),
        _ => None,
    }
}

/// The arithmetic operator `op` applied to two values.
pub fn arith<F: FloatArith>(fl: &F, op: char, l: &Value, r: &Value) -> (res: Result<Value, Vec<char>>)
    ensures
        (l is Integer && r is Integer) ==> {
            &&& (res is Ok <==> int_arith(op, l@->Int_0, r@->Int_0) is Some)
            &&& (res is Ok ==> res->Ok_0@ == Val::Int(int_arith(op, l@->Int_0, r@->Int_0)->0))
        },
        (l is String && r is String && op == '+') ==> res is Ok && res->Ok_0@ == Val::Str(
            l@->Str_0 + r@->Str_0,
        ),
        (is_num(l@) && is_num(r@) && !(l is Integer && r is Integer)) ==> {
            &&& (res is Ok ==> res->Ok_0 is Float)
            &&& ((!is_arith(op) || ((op == '/' || op == '%') && zero_divisor(r@))) ==> res is Err)
        },
        !(is_num(l@) && is_num(r@)) && !(l is String && r is String && op == '+') ==> res is Err,
        (l is Float && r is Float && is_arith(op) && !((op == '/' || op == '%') && zero_divisor(r@)))
            ==> res is Ok && res->Ok_0 is Float,
{
    let mut op_text: Vec<char> = Vec::new();
    op_text.push(op);
    match (l, r) {
        (Value::Integer(a), Value::Integer(b)) => {
            match integer_arith(op, a, b) {
                Some(n) => Ok(Value::Integer(n)),
                None => {
                    if op == '/' {
                        Err(chars_of("Division by zero"))
                    } else if op == '%' {
                        Err(chars_of("Modulo by zero"))
                    } else if op == '^' {
                        Err(chars_of("Integer exponentiation only supports exponents from 0 up to u32 max"))
                    } else {
                        Err(type_error("Unknown numeric infix operator", &op_text, l, r))
                    }
                },
            }
        },
        (Value::String(a), Value::String(b)) if op == '+' => {
            let mut s = copy_chars(a);
            push_all(&mut s, b);
            Ok(Value::String(s))
        },
        _ => {
            if !(l.is_number() && r.is_number()) {
                return Err(type_error("Incompatible types for operator", &op_text, l, r));
            }
            if !(op == '+' || op == '-' || op == '*' || op == '/' || op == '%' || op == '^') {
                return Err(type_error("Unknown numeric infix operator", &op_text, l, r));
            }
            let divisor_zero = match r {
                Value::Integer(b) => big_is_zero(b),
                Value::Float(b) => float_near_zero(*b),
                _ => false,
            };
            if (op == '/' || op == '%') && divisor_zero {
                return Err(chars_of(if op == '/' { "Division by zero in float operation" } else { "Modulo by zero in float operation" }));
            }
            let a = match as_float(fl, l) {
                Some(a) => a,
                None => {
                    return Err(chars_of("Left integer too large for float conversion"));
                },
            };
            let b = match as_float(fl, r) {
                Some(b) => b,
                None => {
                    return Err(chars_of("Right integer too large for float conversion"));
                },
            };
            Ok(Value::Float(fl.apply(op, a, b)))
        },
    }
}

/// Strict equality: the same variant and the same value. An Integer never
/// equals a Float here.
pub open spec fn strict_eq(a: Val, b: Val) -> bool {
    match (a, b) {
        (Val::Int(x), Val::Int(y)) => x == y,
        (Val::Float(x), Val::Float(y)) => float_eq(x, y),
        (Val::Str(x), Val::Str(y)) => x == y,
        (Val::Bool(x), Val::Bool(y)) => x == y,
        (Val::Void, Val::Void) => true,
        _ => false,
    }
}

/// Whether `a` and `b` are an Integer and a Float, in either order.
pub open spec fn int_and_float(a: Val, b: Val) -> bool {
    (a is Int && b is Float) || (a is Float && b is Int)
}

/// `===`.
pub fn strict_equal(a: &Value, b: &Value) -> (r: bool)
    ensures
        r == strict_eq(a@, b@),
{
    match (a, b) {
        (Value::Integer(x), Value::Integer(y)) => {
            match big_cmp(x, y) {
                Ordering::Equal => true,
                _ => false,
            }
        },
        (Value::Float(x), Value::Float(y)) => float_equal(*x, *y),
        (Value::String(x), Value::String(y)) => crate::text::same_chars(x, y),
        (Value::Boolean(x), Value::Boolean(y)) => *x == *y,
        (Value::Void, Value::Void) => true,
        _ => false,
    }
}

/// `==`: strict equality, and besides an Integer equals a Float when its
/// float conversion does. Strictly equal values are loosely equal, and
/// loosely equal values that are not strictly equal are an Integer and a
/// Float.
pub fn loose_equal<F: FloatArith>(fl: &F, a: &Value, b: &Value) -> (r: bool)
    ensures
        strict_eq(a@, b@) ==> r,
        r && !strict_eq(a@, b@) ==> int_and_float(a@, b@),
        !int_and_float(a@, b@) ==> r == strict_eq(a@, b@),
{
    if strict_equal(a, b) {
        return true;
    }
    match (a, b) {
        (Value::Integer(x), Value::Float(y)) => {
            match fl.from_integer(x) {
                Some(f) => float_equal(f, *y),
                None => false,
            }
        },
        (Value::Float(x), Value::Integer(y)) => {
            match fl.from_integer(y) {
                Some(f) => float_equal(*x, f),
                None => false,
            }
        },
        _ => false,
    }
}

/// Lexicographic order of character sequences.
pub open spec fn seq_lt(a: Seq<char>, b: Seq<char>) -> bool
    decreases a.len(),
{
    if a.len() == 0 {
        b.len() > 0
    } else if b.len() == 0 {
        false
    } else if a[0] != b[0] {
        a[0] < b[0]
    } else {
        seq_lt(a.drop_first(), b.drop_first())
    }
}

/// Lexicographic `a < b`.
pub fn chars_less(a: &Vec<char>, b: &Vec<char>) -> (r: bool)
    ensures
        r == seq_lt(a@, b@),
{
    let mut i: usize = 0;
    assert(a@.subrange(0, a@.len() as int) =~= a@);
    assert(b@.subrange(0, b@.len() as int) =~= b@);
    while i < a.len() && i < b.len() && a[i] == b[i]
        invariant
            i <= a@.len(),
            i <= b@.len(),
            seq_lt(a@, b@) == seq_lt(a@.subrange(i as int, a@.len() as int), b@.subrange(i as int, b@.len() as int)),
        decreases a@.len() - i,
    {
        let ghost sa = a@.subrange(i as int, a@.len() as int);
        let ghost sb = b@.subrange(i as int, b@.len() as int);
        assert(sa.drop_first() =~= a@.subrange(i + 1, a@.len() as int));
        assert(sb.drop_first() =~= b@.subrange(i + 1, b@.len() as int));
        i = i + 1;
    }
    let ghost sa = a@.subrange(i as int, a@.len() as int);
    let ghost sb = b@.subrange(i as int, b@.len() as int);
    if i == a.len() {
        i < b.len()
    } else if i == b.len() {
        false
    } else {
        assert(sa[0] == a@[i as int]);
        assert(sb[0] == b@[i as int]);
        a[i] < b[i]
    }
}

/// What an ordering operator yields on two values of one variant, or `None`
/// where the variants do not admit an order.
pub open spec fn ordering(op: Seq<char>, a: Val, b: Val) -> Option<bool> {
    match (a, b) {
        (Val::Int(x), Val::Int(y)) => Some(
            if op == "<"@ { x < y } else if op == ">"@ { x > y } else if op == "<="@ { x <= y } else { x >= y },
        ),
        (Val::Float(x), Val::Float(y)) => Some(
            if op == "<"@ {
                float_lt(x, y)
            } else if op == ">"@ {
                float_lt(y, x)
            } else if op == "<="@ {
                float_lt(x, y) || float_eq(x, y)
            } else {
                float_lt(y, x) || float_eq(x, y)
            },
        ),
        (Val::Str(x), Val::Str(y)) => Some(
            if op == "<"@ {
                seq_lt(x, y)
            } else if op == ">"@ {
                seq_lt(y, x)
            } else if op == "<="@ {
                !seq_lt(y, x)
            } else {
                !seq_lt(x, y)
            },
        ),
        _ => None,
    }
}

/// Whether `op` is one of `< > <= >=`.
pub open spec fn is_ordering_op(op: Seq<char>) -> bool {
    op == "<"@ || op == ">"@ || op == "<="@ || op == ">="@
}

/// The comparison operators are told apart by their first character and length.
pub proof fn lemma_comparison_texts_distinct()
    ensures
        "==="@.len() == 3 && "==="@[0] == '=',
        "!=="@.len() == 3 && "!=="@[0] == '!',
        "=="@.len() == 2 && "=="@[0] == '=',
        "!="@.len() == 2 && "!="@[0] == '!',
        "<"@.len() == 1 && "<"@[0] == '<',
        ">"@.len() == 1 && ">"@[0] == '>',
        "<="@.len() == 2 && "<="@[0] == '<',
        ">="@.len() == 2 && ">="@[0] == '>',
{
    reveal_strlit("===");
    reveal_strlit("!==");
    reveal_strlit("==");
    reveal_strlit("!=");
    reveal_strlit("<");
    reveal_strlit(">");
    reveal_strlit("<=");
    reveal_strlit(">=");
}

/// The comparison `op` applied to two values.
pub fn compare<F: FloatArith>(fl: &F, op: &Vec<char>, l: &Value, r: &Value) -> (res: Result<bool, Vec<char>>)
    ensures
        op@ == "==="@ ==> res == Ok::<bool, Vec<char>>(strict_eq(l@, r@)),
        op@ == "!=="@ ==> res == Ok::<bool, Vec<char>>(!strict_eq(l@, r@)),
        (op@ == "=="@ || op@ == "!="@) ==> res is Ok,
        (op@ == "=="@ && strict_eq(l@, r@)) ==> res == Ok::<bool, Vec<char>>(true),
        (op@ == "!="@ && strict_eq(l@, r@)) ==> res == Ok::<bool, Vec<char>>(false),
        ((op@ == "=="@ || op@ == "!="@) && !int_and_float(l@, r@)) ==> res == Ok::<bool, Vec<char>>(
            (op@ == "=="@) == strict_eq(l@, r@),
        ),
        is_ordering_op(op@) ==> match ordering(op@, l@, r@) {
            Some(b) => res == Ok::<bool, Vec<char>>(b),
            None => res is Err,
        },
        !(is_ordering_op(op@) || op@ == "=="@ || op@ == "!="@ || op@ == "==="@ || op@ == "!=="@) ==> res is Err,
{
    proof {
        lemma_comparison_texts_distinct();
    }
    if is_word(op, "===") {
        Ok(strict_equal(l, r))
    } else if is_word(op, "!==") {
        Ok(!strict_equal(l, r))
    } else if is_word(op, "==") {
        Ok(loose_equal(fl, l, r))
    } else if is_word(op, "!=") {
        Ok(!loose_equal(fl, l, r))
    } else if is_word(op, "<") || is_word(op, ">") || is_word(op, "<=") || is_word(op, ">=") {
        let lt = is_word(op, "<");
        let gt = is_word(op, ">");
        let le = is_word(op, "<=");
        match (l, r) {
            (Value::Integer(x), Value::Integer(y)) => {
                let c = big_cmp(x, y);
                let less = matches!(c, Ordering::Less);
                let equal = matches!(c, Ordering::Equal);
                Ok(if lt { less } else if gt { !less && !equal } else if le { less || equal } else { !less })
            },
            (Value::Float(x), Value::Float(y)) => {
                Ok(if lt {
                    float_less(*x, *y)
                } else if gt {
                    float_less(*y, *x)
                } else if le {
                    float_less(*x, *y) || float_equal(*x, *y)
                } else {
                    float_less(*y, *x) || float_equal(*x, *y)
                })
            },
            (Value::String(x), Value::String(y)) => {
                Ok(if lt {
                    chars_less(x, y)
                } else if gt {
                    chars_less(y, x)
                } else if le {
                    !chars_less(y, x)
                } else {
                    !chars_less(x, y)
                })
            },
            _ => Err(type_error("Incompatible types for ordering operator", op, l, r)),
        }
    } else {
        let mut m = chars_of("Unknown comparison operator: ");
        push_all(&mut m, op);
        Err(m)
    }
}

/// The value that `and` / `or` yields without looking at its right operand:
/// `false and _` is false, `true or _` is true.
pub fn short_circuit(op: &Vec<char>, left: &Value) -> (r: Option<Value>)
    ensures
        r == (if op@ == "and"@ && left@ == Val::Bool(false) {
            Some(Value::Boolean(false))
        } else if op@ == "or"@ && left@ == Val::Bool(true) {
            Some(Value::Boolean(true))
        } else {
            None::<Value>
        }),
{
    match left {
        Value::Boolean(b) => {
            if !*b && is_word(op, "and") {
                Some(Value::Boolean(false))
            } else if *b && is_word(op, "or") {
                Some(Value::Boolean(true))
            } else {
                None
            }
        },
        _ => None,
    }
}

/// `and` / `or` on two evaluated operands, both of which must be Booleans.
pub fn combine_logic(op: &Vec<char>, l: &Value, r: &Value) -> (res: Result<Value, Vec<char>>)
    ensures
        match (l@, r@) {
            (Val::Bool(a), Val::Bool(b)) => if op@ == "and"@ {
                res is Ok && res->Ok_0@ == Val::Bool(a && b)
            } else if op@ == "or"@ {
                res is Ok && res->Ok_0@ == Val::Bool(a || b)
            } else {
                res is Err
            },
            _ => res is Err,
        },
{
    match (l, r) {
        (Value::Boolean(a), Value::Boolean(b)) => {
            if is_word(op, "and") {
                Ok(Value::Boolean(*a && *b))
            } else if is_word(op, "or") {
                Ok(Value::Boolean(*a || *b))
            } else {
                Err(type_error("Unknown logical operator", op, l, r))
            }
        },
        _ => Err(type_error("Logical operator only works on Booleans:", op, l, r)),
    }
}

/// A prefix operator applied to a value: `+` keeps a number, `-` negates it.
pub fn apply_prefix(op: char, v: Value) -> (res: Result<Value, Vec<char>>)
    ensures
        (op == '+' && is_num(v@)) ==> res == Ok::<Value, Vec<char>>(v),
        (op == '-' && v is Integer) ==> res is Ok && res->Ok_0@ == Val::Int(-v@->Int_0),
        (op == '-' && v is Float) ==> res is Ok && res->Ok_0@ == Val::Float(negated(v->Float_0)),
        !((op == '+' || op == '-') && is_num(v@)) ==> res is Err,
{
    if op == '+' {
        if v.is_number() {
            Ok(v)
        } else {
            Err(chars_of("Unary plus only works on numbers"))
        }
    } else if op == '-' {
        match v {
            Value::Integer(n) => Ok(Value::Integer(big_neg(&n))),
            Value::Float(b) => Ok(Value::Float(float_negate(b))),
            _ => Err(chars_of("Unary minus only works on numbers")),
        }
    } else {
        Err(chars_of("Unknown prefix operator"))
    }
}

} // verus!
