//! The meaning of programs, as spec functions: how expressions evaluate,
//! how statements run inside functions and at the top level, and what a
//! whole program records. Where an outcome depends on a float operation of
//! the host, the functions here say `None`: they pin down everything else.
use vstd::prelude::*;
use crate::ast::Expr;
use crate::ast::Statement;
use crate::ast::calls_nothing;
use crate::float::negated;
use crate::format::placeholder_count;
use crate::format::substitute;
use crate::integer::is_numeral;
use crate::integer::numeral_value;
use crate::interp::Emission;
use crate::interp::FuncDef;
use crate::interp::FunctionControlFlow;
use crate::interp::Origin;
use crate::interp::StatementRecord;
use crate::value::Val;
use crate::value::Value;
use crate::value::display_text;
use crate::value::int_and_float;
use crate::value::int_arith;
use crate::value::is_arith;
use crate::value::is_num;
use crate::value::is_ordering_op;
use crate::value::ordering;
use crate::value::print_text;
use crate::value::strict_eq;
use crate::value::zero_divisor;

verus! {

/// An emitted line: its text and where it was printed from.
pub type Line = (Seq<char>, Origin);

/// The lines of a sink.
pub open spec fn lines(out: Seq<Emission>) -> Seq<Line> {
    out.map_values(|e: Emission| (e.text@, e.origin))
}

/// The values of an environment.
pub open spec fn vals(env: Map<Seq<char>, Value>) -> Map<Seq<char>, Val> {
    env.map_values(|v: Value| v@)
}

/// The mathematical form of a [`FunctionControlFlow`].
pub enum FlowV {
    Continue(Val),
    Return(Val),
    Print(Seq<char>),
}

impl View for FunctionControlFlow {
    type V = FlowV;

    open spec fn view(&self) -> FlowV {
        match self {
            FunctionControlFlow::Continue(v) => FlowV::Continue(v@),
            FunctionControlFlow::Return(v) => FlowV::Return(v@),
            FunctionControlFlow::Print(t) => FlowV::Print(t@),
        }
    }
}

/// The variables of a fresh call frame: each parameter bound to its
/// argument, a later parameter of the same name winning.
pub open spec fn bind(params: Seq<Vec<char>>, args: Seq<Val>) -> Map<Seq<char>, Val>
    decreases params.len(),
{
    if params.len() == 0 || args.len() == 0 {
        Map::empty()
    } else {
        bind(params.drop_last(), args.drop_last()).insert(params.last()@, args.last())
    }
}

/// Evaluation of `e`, with `d` units of nesting left: the outcome, the
/// variables after it and the lines emitted so far, or `None` where a float
/// operation of the host decides the outcome.
pub open spec fn ev(
    e: Expr,
    env: Map<Seq<char>, Val>,
    defs: Map<Seq<char>, FuncDef>,
    out: Seq<Line>,
    d: nat,
) -> Option<(Result<Val, ()>, Map<Seq<char>, Val>, Seq<Line>)>
    decreases d, 0nat, 0nat,
{
    match e {
        Expr::Num(s) => if is_numeral(s@) {
            Some((Ok(Val::Int(numeral_value(s@))), env, out))
        } else {
            None
        },
        Expr::Str(s) => Some((Ok(Val::Str(s@)), env, out)),
        Expr::Var(n) => if env.contains_key(n@) {
            Some((Ok(env[n@]), env, out))
        } else {
            Some((Err(()), env, out))
        },
        Expr::Call(name, args) => if !defs.contains_key(name@) || defs[name@].params@.len() != args@.len() || d == 0 {
            Some((Err(()), env, out))
        } else {
            match list_ev(args@, 0, env, defs, out, (d - 1) as nat, Seq::empty()) {
                None => None,
                Some((Err(_), env2, out2)) => Some((Err(()), env2, out2)),
                Some((Ok(values), env2, out2)) => match call_ev(defs[name@], values, defs, out2, (d - 1) as nat) {
                    None => None,
                    Some((res, out3)) => Some((
                        match res {
                            Ok(v) => Ok(v),
                            Err(_) => Err(()),
                        },
                        env2,
                        out3,
                    )),
                },
            }
        },
        Expr::Infix(l, op, r) => if op == '=' {
            match *l {
                Expr::Var(n) => if d == 0 {
                    Some((Err(()), env, out))
                } else {
                    match ev(*r, env, defs, out, (d - 1) as nat) {
                        Some((Ok(v), env2, out2)) => Some((Ok(v), env2.insert(n@, v), out2)),
                        other => other,
                    }
                },
                _ => Some((Err(()), env, out)),
            }
        } else if d == 0 {
            Some((Err(()), env, out))
        } else {
            match ev(*l, env, defs, out, (d - 1) as nat) {
                Some((Ok(a), env2, out2)) => match ev(*r, env2, defs, out2, (d - 1) as nat) {
                    Some((Ok(b), env3, out3)) => match arith_value(op, a, b) {
                        Some(res) => Some((res, env3, out3)),
                        None => None,
                    },
                    other => other,
                },
                other => other,
            }
        },
        Expr::Prefix(op, x) => if d == 0 {
            Some((Err(()), env, out))
        } else {
            match ev(*x, env, defs, out, (d - 1) as nat) {
                Some((Ok(v), env2, out2)) => match prefix_value(op, v) {
                    Some(res) => Some((res, env2, out2)),
                    None => None,
                },
                other => other,
            }
        },
        Expr::Cmp(l, op, r) => if d == 0 {
            Some((Err(()), env, out))
        } else {
            match ev(*l, env, defs, out, (d - 1) as nat) {
                Some((Ok(a), env2, out2)) => match ev(*r, env2, defs, out2, (d - 1) as nat) {
                    Some((Ok(b), env3, out3)) => match cmp_value(op@, a, b) {
                        Some(res) => Some((res, env3, out3)),
                        None => None,
                    },
                    other => other,
                },
                other => other,
            }
        },
        Expr::Logic(l, op, r) => if d == 0 {
            Some((Err(()), env, out))
        } else {
            match ev(*l, env, defs, out, (d - 1) as nat) {
                Some((Ok(a), env2, out2)) => if stops_at(op@, a) {
                    Some((Ok(a), env2, out2))
                } else {
                    match ev(*r, env2, defs, out2, (d - 1) as nat) {
                        Some((Ok(b), env3, out3)) => match logic_value(op@, a, b) {
                            Some(res) => Some((res, env3, out3)),
                            None => None,
                        },
                        other => other,
                    }
                },
                other => other,
            }
        },
    }
}

/// Evaluation of the expressions `es` from the `i`-th on, in order, after
/// the values `acc`.
pub open spec fn list_ev(
    es: Seq<Expr>,
    i: int,
    env: Map<Seq<char>, Val>,
    defs: Map<Seq<char>, FuncDef>,
    out: Seq<Line>,
    d: nat,
    acc: Seq<Val>,
) -> Option<(Result<Seq<Val>, ()>, Map<Seq<char>, Val>, Seq<Line>)>
    decreases d, 1nat, es.len() - i,
{
    if i < 0 || i >= es.len() {
        Some((Ok(acc), env, out))
    } else {
        match ev(es[i], env, defs, out, d) {
            None => None,
            Some((Err(_), env2, out2)) => Some((Err(()), env2, out2)),
            Some((Ok(v), env2, out2)) => list_ev(es, i + 1, env2, defs, out2, d, acc.push(v)),
        }
    }
}

/// A call of `def` on `args`, in a fresh frame: the outcome and the lines
/// emitted so far.
pub open spec fn call_ev(def: FuncDef, args: Seq<Val>, defs: Map<Seq<char>, FuncDef>, out: Seq<Line>, d: nat) -> Option<(Result<Val, nat>, Seq<Line>)>
    decreases d, 3nat, 0nat,
{
    body_ev(def.body@, 0, bind(def.params@, args), defs, out, d, Val::Void)
}

/// The statements of a function body from the `k`-th on, after a last
/// value `last`. An error gives the 1-based index of the first statement
/// that failed.
pub open spec fn body_ev(
    body: Seq<Statement>,
    k: int,
    env: Map<Seq<char>, Val>,
    defs: Map<Seq<char>, FuncDef>,
    out: Seq<Line>,
    d: nat,
    last: Val,
) -> Option<(Result<Val, nat>, Seq<Line>)>
    decreases d, 2nat, body.len() - k,
{
    if k < 0 || k >= body.len() {
        Some((Ok(last), out))
    } else if d == 0 {
        Some((Err((k + 1) as nat), out))
    } else {
        match stmt_ev(body[k], env, defs, out, (d - 1) as nat) {
            None => None,
            Some((Err(_), _, out2)) => Some((Err((k + 1) as nat), out2)),
            Some((Ok(flow), env2, out2)) => match flow {
                FlowV::Return(v) => Some((Ok(v), out2)),
                FlowV::Continue(v) => body_ev(body, k + 1, env2, defs, out2, d, v),
                FlowV::Print(t) => body_ev(
                    body,
                    k + 1,
                    env2,
                    defs,
                    out2.push((t, Origin::FunctionBody((k + 1) as usize))),
                    d,
                    last,
                ),
            },
        }
    }
}

/// The text that a print statement emits, from its evaluated arguments. Too
/// many arguments for the placeholders is an error whatever they are.
pub open spec fn print_ev(format: Option<Seq<char>>, values: Seq<Val>) -> Option<Result<Seq<char>, ()>> {
    match format {
        None => if values.len() != 1 {
            Some(Err(()))
        } else if values[0] is Float {
            None
        } else {
            Some(Ok(print_text(values[0])))
        },
        Some(f) => if values.len() > placeholder_count(f) {
            Some(Err(()))
        } else if exists|i: int| 0 <= i < values.len() && values[i] is Float {
            None
        } else {
            match substitute(f, values.map_values(|v: Val| print_text(v))) {
                Some(t) => Some(Ok(t)),
                None => Some(Err(())),
            }
        },
    }
}

/// One statement of a function body.
pub open spec fn stmt_ev(
    s: Statement,
    env: Map<Seq<char>, Val>,
    defs: Map<Seq<char>, FuncDef>,
    out: Seq<Line>,
    d: nat,
) -> Option<(Result<FlowV, ()>, Map<Seq<char>, Val>, Seq<Line>)>
    decreases d, 5nat, 0nat,
{
    match s {
        Statement::Expr(e) => match ev(e, env, defs, out, d) {
            None => None,
            Some((Ok(v), env2, out2)) => Some((Ok(FlowV::Continue(v)), env2, out2)),
            Some((Err(_), env2, out2)) => Some((Err(()), env2, out2)),
        },
        Statement::Print(f, es) => match list_ev(es@, 0, env, defs, out, d, Seq::empty()) {
            None => None,
            Some((Err(_), env2, out2)) => Some((Err(()), env2, out2)),
            Some((Ok(values), env2, out2)) => match print_ev(
                match f {
                    Some(t) => Some(t@),
                    None => None,
                },
                values,
            ) {
                None => None,
                Some(Ok(t)) => Some((Ok(FlowV::Print(t)), env2, out2)),
                Some(Err(_)) => Some((Err(()), env2, out2)),
            },
        },
        Statement::If(c, t, e) => match ev(c, env, defs, out, d) {
            None => None,
            Some((Err(_), env2, out2)) => Some((Err(()), env2, out2)),
            Some((Ok(v), env2, out2)) => match v {
                Val::Bool(b) => if b {
                    block_ev(t@, 0, env2, defs, out2, d)
                } else {
                    match e {
                        Some(eb) => block_ev(eb@, 0, env2, defs, out2, d),
                        None => Some((Ok(FlowV::Continue(Val::Void)), env2, out2)),
                    }
                },
                _ => Some((Err(()), env2, out2)),
            },
        },
        Statement::Def(..) => Some((Err(()), env, out)),
        Statement::Return(e) => match e {
            None => Some((Ok(FlowV::Return(Val::Void)), env, out)),
            Some(x) => match ev(x, env, defs, out, d) {
                None => None,
                Some((Ok(v), env2, out2)) => Some((Ok(FlowV::Return(v)), env2, out2)),
                Some((Err(_), env2, out2)) => Some((Err(()), env2, out2)),
            },
        },
    }
}

/// The statements of an `if` or `else` block inside a function, from the
/// `k`-th on: the block ends in `Continue(Void)` unless a `return` leaves it.
pub open spec fn block_ev(
    body: Seq<Statement>,
    k: int,
    env: Map<Seq<char>, Val>,
    defs: Map<Seq<char>, FuncDef>,
    out: Seq<Line>,
    d: nat,
) -> Option<(Result<FlowV, ()>, Map<Seq<char>, Val>, Seq<Line>)>
    decreases d, 4nat, body.len() - k,
{
    if k < 0 || k >= body.len() {
        Some((Ok(FlowV::Continue(Val::Void)), env, out))
    } else if d == 0 {
        Some((Err(()), env, out))
    } else {
        match stmt_ev(body[k], env, defs, out, (d - 1) as nat) {
            None => None,
            Some((Err(_), env2, out2)) => Some((Err(()), env2, out2)),
            Some((Ok(flow), env2, out2)) => match flow {
                FlowV::Return(v) => Some((Ok(FlowV::Return(v)), env2, out2)),
                FlowV::Continue(_) => block_ev(body, k + 1, env2, defs, out2, d),
                FlowV::Print(t) => block_ev(body, k + 1, env2, defs, out2.push((t, Origin::Block)), d),
            },
        }
    }
}

/// What a prefix operator yields on a value: `None` where that is left to
/// the host, `Some(Err(()))` where it raises.
pub open spec fn prefix_value(op: char, v: Val) -> Option<Result<Val, ()>> {
    match v {
        Val::Int(n) => if op == '+' {
            Some(Ok(Val::Int(n)))
        } else if op == '-' {
            Some(Ok(Val::Int(-n)))
        } else {
            Some(Err(()))
        },
        Val::Float(b) => if op == '+' {
            Some(Ok(Val::Float(b)))
        } else if op == '-' {
            Some(Ok(Val::Float(negated(b))))
        } else {
            Some(Err(()))
        },
        _ => Some(Err(())),
    }
}

/// What an arithmetic operator yields on two values, as [`prefix_value`].
pub open spec fn arith_value(op: char, a: Val, b: Val) -> Option<Result<Val, ()>> {
    match (a, b) {
        (Val::Int(x), Val::Int(y)) => match int_arith(op, x, y) {
            Some(n) => Some(Ok(Val::Int(n))),
            None => Some(Err(())),
        },
        (Val::Str(x), Val::Str(y)) => if op == '+' {
            Some(Ok(Val::Str(x + y)))
        } else {
            Some(Err(()))
        },
        _ => if is_num(a) && is_num(b) {
            if !is_arith(op) || ((op == '/' || op == '%') && zero_divisor(b)) {
                Some(Err(()))
            } else {
                None
            }
        } else {
            Some(Err(()))
        },
    }
}

/// What a comparison operator yields on two values, as [`prefix_value`].
pub open spec fn cmp_value(op: Seq<char>, a: Val, b: Val) -> Option<Result<Val, ()>> {
    if op == "==="@ {
        Some(Ok(Val::Bool(strict_eq(a, b))))
    } else if op == "!=="@ {
        Some(Ok(Val::Bool(!strict_eq(a, b))))
    } else if op == "=="@ || op == "!="@ {
        if int_and_float(a, b) {
            None
        } else {
            Some(Ok(Val::Bool((op == "=="@) == strict_eq(a, b))))
        }
    } else if is_ordering_op(op) {
        match ordering(op, a, b) {
            Some(x) => Some(Ok(Val::Bool(x))),
            None => Some(Err(())),
        }
    } else {
        Some(Err(()))
    }
}

/// What `and` / `or` yields on two evaluated operands.
pub open spec fn logic_value(op: Seq<char>, a: Val, b: Val) -> Option<Result<Val, ()>> {
    match (a, b) {
        (Val::Bool(x), Val::Bool(y)) => if op == "and"@ {
            Some(Ok(Val::Bool(x && y)))
        } else if op == "or"@ {
            Some(Ok(Val::Bool(x || y)))
        } else {
            Some(Err(()))
        },
        _ => Some(Err(())),
    }
}

/// Whether `and` / `or` stops at its left operand `a`.
pub open spec fn stops_at(op: Seq<char>, a: Val) -> bool {
    (op == "and"@ && a == Val::Bool(false)) || (op == "or"@ && a == Val::Bool(true))
}

/// Two operands evaluated left to right: the first error wins, and an
/// unknown operand makes the outcome unknown.
pub open spec fn both(
    l: Option<Result<Val, ()>>,
    r: Option<Result<Val, ()>>,
    f: spec_fn(Val, Val) -> Option<Result<Val, ()>>,
) -> Option<Result<Val, ()>> {
    match l {
        Some(Ok(a)) => match r {
            Some(Ok(b)) => f(a, b),
            other => other,
        },
        other => other,
    }
}

/// The value of an expression in the variables `env`, where no call, no
/// assignment and no float operation of the host decides it: `None` where
/// one does, `Some(Err(()))` where evaluation raises. A right operand that
/// `and` / `or` skips is never looked at.
pub open spec fn pure_value(e: Expr, env: Map<Seq<char>, Value>) -> Option<Result<Val, ()>>
    decreases e,
{
    match e {
        Expr::Num(s) => if is_numeral(s@) {
            Some(Ok(Val::Int(numeral_value(s@))))
        } else {
            None
        },
        Expr::Str(s) => Some(Ok(Val::Str(s@))),
        Expr::Var(n) => if env.contains_key(n@) {
            Some(Ok(env[n@]@))
        } else {
            Some(Err(()))
        },
        Expr::Prefix(op, x) => match pure_value(*x, env) {
            Some(Ok(v)) => prefix_value(op, v),
            other => other,
        },
        Expr::Infix(l, op, r) => if op == '=' {
            None
        } else {
            both(pure_value(*l, env), pure_value(*r, env), |a: Val, b: Val| arith_value(op, a, b))
        },
        Expr::Cmp(l, op, r) => both(
            pure_value(*l, env),
            pure_value(*r, env),
            |a: Val, b: Val| cmp_value(op@, a, b),
        ),
        Expr::Logic(l, op, r) => match pure_value(*l, env) {
            Some(Ok(a)) => if stops_at(op@, a) {
                Some(Ok(a))
            } else {
                both(Some(Ok(a)), pure_value(*r, env), |x: Val, y: Val| logic_value(op@, x, y))
            },
            other => other,
        },
        Expr::Call(..) => None,
    }
}

/// The nesting depth of an expression, which bounds the `depth` that
/// evaluating it needs.
pub open spec fn height(e: Expr) -> nat
    decreases e,
{
    match e {
        Expr::Prefix(_, x) => 1 + height(*x),
        Expr::Infix(l, _, r) => 1 + vstd::math::max(height(*l) as int, height(*r) as int) as nat,
        Expr::Cmp(l, _, r) => 1 + vstd::math::max(height(*l) as int, height(*r) as int) as nat,
        Expr::Logic(l, _, r) => 1 + vstd::math::max(height(*l) as int, height(*r) as int) as nat,
        _ => 0,
    }
}

/// `false and x` is false whatever `x` is: the right operand is never
/// looked at, so by the contract of [`eval`] it is never run, and the
/// variables and the output stay as they were.
pub proof fn lemma_and_skips_right(l: Expr, op: Vec<char>, x: Expr, env: Map<Seq<char>, Value>)
    requires
        op@ == "and"@,
        pure_value(l, env) == Some(Ok::<Val, ()>(Val::Bool(false))),
    ensures
        pure_value(Expr::Logic(Box::new(l), op, Box::new(x)), env) == Some(Ok::<Val, ()>(Val::Bool(false))),
{
}

/// `true or x` is true whatever `x` is, as in [`lemma_and_skips_right`].
pub proof fn lemma_or_skips_right(l: Expr, op: Vec<char>, x: Expr, env: Map<Seq<char>, Value>)
    requires
        op@ == "or"@,
        pure_value(l, env) == Some(Ok::<Val, ()>(Val::Bool(true))),
    ensures
        pure_value(Expr::Logic(Box::new(l), op, Box::new(x)), env) == Some(Ok::<Val, ()>(Val::Bool(true))),
{
}

/// Whether `s` is an `if` with an empty then-body, no else-body, and a
/// condition that calls no function.
pub open spec fn if_is_quiet(s: Statement) -> bool {
    match s {
        Statement::If(c, t, None) => t@.len() == 0 && calls_nothing(c),
        _ => false,
    }
}

/// One top-level statement: its result text, the variables, the function
/// table and the lines emitted so far, or `None` where a float operation of
/// the host decides the outcome.
pub open spec fn top_ev(
    s: Statement,
    env: Map<Seq<char>, Val>,
    defs: Map<Seq<char>, FuncDef>,
    out: Seq<Line>,
    d: nat,
) -> Option<(Result<Seq<char>, ()>, Map<Seq<char>, Val>, Map<Seq<char>, FuncDef>, Seq<Line>)>
    decreases d, 1nat, 0nat,
{
    match s {
        Statement::Expr(e) => match ev(e, env, defs, out, d) {
            None => None,
            Some((Err(_), env2, out2)) => Some((Err(()), env2, defs, out2)),
            Some((Ok(v), env2, out2)) => if v is Void {
                Some((Ok(Seq::empty()), env2, defs, out2))
            } else if v is Float {
                None
            } else {
                Some((Ok(display_text(v)), env2, defs, out2))
            },
        },
        Statement::Print(f, es) => match list_ev(es@, 0, env, defs, out, d, Seq::empty()) {
            None => None,
            Some((Err(_), env2, out2)) => Some((Err(()), env2, defs, out2)),
            Some((Ok(values), env2, out2)) => match print_ev(
                match f {
                    Some(t) => Some(t@),
                    None => None,
                },
                values,
            ) {
                None => None,
                Some(Ok(t)) => Some((Ok(t), env2, defs, out2.push((t, Origin::TopLevel)))),
                Some(Err(_)) => Some((Err(()), env2, defs, out2)),
            },
        },
        Statement::Def(n, ps, body) => Some((Ok(Seq::empty()), env, defs.insert(n@, FuncDef { params: ps, body }), out)),
        Statement::Return(_) => Some((Ok(Seq::empty()), env, defs, out)),
        Statement::If(c, t, e) => match ev(c, env, defs, out, d) {
            None => None,
            Some((Err(_), env2, out2)) => Some((Err(()), env2, defs, out2)),
            Some((Ok(v), env2, out2)) => match v {
                Val::Bool(b) => match (if b { Some(t) } else { e }) {
                    None => Some((Ok(Seq::empty()), env2, defs, out2)),
                    Some(body) => match top_block_ev(body@, 0, env2, defs, out2, d) {
                        None => None,
                        Some((Err(_), env3, defs3, out3)) => Some((Err(()), env3, defs3, out3)),
                        Some((Ok(_), env3, defs3, out3)) => Some((Ok(Seq::empty()), env3, defs3, out3)),
                    },
                },
                _ => Some((Err(()), env2, defs, out2)),
            },
        },
    }
}

/// The statements of a top-level `if` or `else` block from the `k`-th on.
pub open spec fn top_block_ev(
    body: Seq<Statement>,
    k: int,
    env: Map<Seq<char>, Val>,
    defs: Map<Seq<char>, FuncDef>,
    out: Seq<Line>,
    d: nat,
) -> Option<(Result<(), ()>, Map<Seq<char>, Val>, Map<Seq<char>, FuncDef>, Seq<Line>)>
    decreases d, 0nat, body.len() - k,
{
    if k < 0 || k >= body.len() {
        Some((Ok(()), env, defs, out))
    } else if d == 0 {
        Some((Err(()), env, defs, out))
    } else {
        match top_ev(body[k], env, defs, out, (d - 1) as nat) {
            None => None,
            Some((Err(_), env2, defs2, out2)) => Some((Err(()), env2, defs2, out2)),
            Some((Ok(_), env2, defs2, out2)) => top_block_ev(body, k + 1, env2, defs2, out2, d),
        }
    }
}

/// What running the top-level statements of `p` from the `k`-th on
/// records: each statement's result and the lines it emitted, up to and
/// including the first that fails; `None` where a float operation of the
/// host decides an outcome.
pub open spec fn program_ev(
    p: Seq<Statement>,
    k: int,
    env: Map<Seq<char>, Val>,
    defs: Map<Seq<char>, FuncDef>,
    d: nat,
) -> Option<Seq<(Result<Seq<char>, ()>, Seq<Line>)>>
    decreases p.len() - k,
{
    if k < 0 || k >= p.len() {
        Some(Seq::empty())
    } else {
        match top_ev(p[k], env, defs, Seq::empty(), d) {
            None => None,
            Some((res, env2, defs2, o)) => if res is Err {
                Some(seq![(res, o)])
            } else {
                match program_ev(p, k + 1, env2, defs2, d) {
                    None => None,
                    Some(rest) => Some(seq![(res, o)] + rest),
                }
            },
        }
    }
}

/// The mathematical form of a record.
pub open spec fn record_view(r: StatementRecord) -> (Result<Seq<char>, ()>, Seq<Line>) {
    (
        match r.result {
            Ok(t) => Ok(t@),
            Err(_) => Err(()),
        },
        lines(r.emitted@),
    )
}

/// Defining a function a second time replaces the first definition: the
/// table maps the name to the second, as if the first had never been.
pub proof fn lemma_redefinition_replaces(
    defs: Map<Seq<char>, FuncDef>,
    name: Seq<char>,
    first: FuncDef,
    second: FuncDef,
)
    ensures
        defs.insert(name, first).insert(name, second) == defs.insert(name, second),
        defs.insert(name, first).insert(name, second)[name] == second,
{
    assert(defs.insert(name, first).insert(name, second) =~= defs.insert(name, second));
}

} // verus!
