//! The evaluator and the statement runners, proved against the meaning
//! that [`crate::semantics`] gives programs.
use vstd::prelude::*;
use crate::ast::Expr;
use crate::ast::Statement;
use crate::ast::assigns_nothing;
use crate::ast::calls_nothing;
use crate::ast::free_of_defs;
use crate::ast::stmts_view;
use crate::float::FloatArith;
use crate::format::fill_placeholders;
use crate::format::placeholder_count;
use crate::format::substitute;
use crate::format::texts;
use crate::integer::big_parse;
use crate::integer::is_digits;
use crate::integer::nat_text;
use crate::integer::is_numeral;
use crate::integer::numeral_value;
use crate::lexer::tokens_from;
use crate::parser::program_of;
use crate::semantics::Line;
use crate::semantics::block_ev;
use crate::semantics::body_ev;
use crate::semantics::bind;
use crate::semantics::call_ev;
use crate::semantics::ev;
use crate::semantics::height;
use crate::semantics::if_is_quiet;
use crate::semantics::lines;
use crate::semantics::list_ev;
use crate::semantics::print_ev;
use crate::semantics::program_ev;
use crate::semantics::pure_value;
use crate::semantics::record_view;
use crate::semantics::stmt_ev;
use crate::semantics::top_block_ev;
use crate::semantics::top_ev;
use crate::semantics::vals;
use crate::table::Table;
use crate::text::chars_of;
use crate::text::copy_chars;
use crate::text::push_all;
use crate::text::push_str;
use crate::value::Val;
use crate::value::Value;
use crate::value::apply_prefix;
use crate::value::arith;
use crate::value::combine_logic;
use crate::value::compare;
use crate::value::display_text;
use crate::value::print_text;
use crate::value::short_circuit;

verus! {

/// A user function: its parameter names and its body.
pub struct FuncDef {
    pub params: Vec<Vec<char>>,
    pub body: Vec<Statement>,
}

/// The variables of one call frame, or of the top level.
pub type Environment = Table<Value>;

/// The functions of a program, by name.
pub type FuncDefs = Table<FuncDef>;

/// How a statement inside a function body ended.
pub enum FunctionControlFlow {
    /// Fell through: with the value of an expression statement, Void for an `if`.
    Continue(Value),
    /// Met `return`, with the returned value.
    Return(Value),
    /// Printed this text, which the caller emits.
    Print(Vec<char>),
}

/// Where an emitted line was printed from.
pub enum Origin {
    TopLevel,
    /// A statement of a function body, by its 1-based index.
    FunctionBody(usize),
    /// A statement of an `if` or `else` block inside a function.
    Block,
}

/// A line of output.
pub struct Emission {
    pub text: Vec<char>,
    pub origin: Origin,
}

/// Whether `s` holds a dot.
pub open spec fn has_dot(s: Seq<char>) -> bool {
    exists|i: int| 0 <= i < s.len() && s[i] == '.'
}

fn contains_dot(s: &Vec<char>) -> (r: bool)
    ensures
        r == has_dot(s@),
{
    let mut i: usize = 0;
    while i < s.len()
        invariant
            i <= s@.len(),
            forall|j: int| 0 <= j < i ==> s@[j] != '.',
        decreases s@.len() - i,
    {
        if s[i] == '.' {
            return true;
        }
        i = i + 1;
    }
    false
}

fn too_deep() -> Vec<char> {
    chars_of("Maximum nesting depth exceeded")
}

/// The value of a numeric literal: a Float when it holds a dot, else an
/// Integer.
pub fn eval_num<F: FloatArith>(fl: &F, s: &Vec<char>) -> (r: Result<Value, Vec<char>>)
    ensures
        r is Ok ==> (r->Ok_0 is Float <==> has_dot(s@)),
        r is Ok ==> (r->Ok_0 is Integer <==> !has_dot(s@)),
        is_numeral(s@) ==> r is Ok && r->Ok_0@ == Val::Int(numeral_value(s@)),
{
    if contains_dot(s) {
        proof {
            if is_numeral(s@) {
                let i = choose|i: int| 0 <= i < s@.len() && s@[i] == '.';
                if is_digits(s@) {
                    assert(crate::integer::is_digit(s@[i]));
                } else {
                    if i > 0 {
                        assert(s@.drop_first()[i - 1] == s@[i]);
                    }
                }
            }
        }
        match fl.parse_float(s) {
            Some(b) => Ok(Value::Float(b)),
            None => {
                let mut m = chars_of("Invalid float: ");
                push_all(&mut m, s);
                Err(m)
            },
        }
    } else {
        match big_parse(s) {
            Some(n) => Ok(Value::Integer(n)),
            None => {
                let mut m = chars_of("Invalid integer: ");
                push_all(&mut m, s);
                Err(m)
            },
        }
    }
}

/// Whether `e` can never evaluate to a Boolean: a literal, a prefix
/// operation, or arithmetic (which yields a number or a string).
pub open spec fn never_boolean(e: Expr) -> bool {
    match e {
        Expr::Num(_) | Expr::Str(_) | Expr::Prefix(..) => true,
        Expr::Infix(_, op, _) => op != '=',
        _ => false,
    }
}

/// The variant of a value that an expression's form alone fixes.
pub enum Kind {
    Int,
    Float,
    Str,
    Bool,
}

/// The variant of a value.
pub open spec fn kind_of(v: Val) -> Option<Kind> {
    match v {
        Val::Int(_) => Some(Kind::Int),
        Val::Float(_) => Some(Kind::Float),
        Val::Str(_) => Some(Kind::Str),
        Val::Bool(_) => Some(Kind::Bool),
        Val::Void => None,
    }
}

/// The variant that every successful evaluation of `e` has, where its form
/// fixes one: a literal's, or Boolean for a comparison or `and` / `or`.
pub open spec fn static_kind(e: Expr) -> Option<Kind> {
    match e {
        Expr::Num(s) => if has_dot(s@) { Some(Kind::Float) } else { Some(Kind::Int) },
        Expr::Str(_) => Some(Kind::Str),
        Expr::Cmp(..) | Expr::Logic(..) => Some(Kind::Bool),
        _ => None,
    }
}

/// Evaluates `expr` in `env`. Only the variable that an assignment names
/// changes in `env`; lines printed by called functions go to `out`. Each
/// level of nesting takes one unit of `depth`.
pub fn eval<F: FloatArith>(
    fl: &F,
    expr: &Expr,
    env: &mut Environment,
    defs: &FuncDefs,
    out: &mut Vec<Emission>,
    depth: u64,
) -> (r: Result<Value, Vec<char>>)
    requires
        old(env).wf(),
        defs.wf(),
    ensures
        final(env).wf(),
        old(out)@.is_prefix_of(final(out)@),
        assigns_nothing(*expr) ==> final(env).view() == old(env).view(),
        calls_nothing(*expr) ==> final(out)@ == old(out)@,
        never_boolean(*expr) && r is Ok ==> !(r->Ok_0 is Boolean),
        (expr is Cmp || expr is Logic) && r is Ok ==> r->Ok_0 is Boolean,
        static_kind(*expr) is Some && r is Ok ==> kind_of(r->Ok_0@) == static_kind(*expr),
        match expr {
            Expr::Cmp(l, op, rr) => (static_kind(**l) is Some && static_kind(**rr) is Some
                && static_kind(**l) != static_kind(**rr) && r is Ok) ==> (op@ == "==="@ ==> r->Ok_0@
                == Val::Bool(false)) && (op@ == "!=="@ ==> r->Ok_0@ == Val::Bool(true)),
            _ => true,
        },
        match ev(*expr, vals(old(env).view()), defs.view(), lines(old(out)@), depth as nat) {
            Some((res, env2, o)) => (r is Ok <==> res is Ok) && (r is Ok ==> r->Ok_0@ == res->Ok_0)
                && vals(final(env).view()) == env2 && lines(final(out)@) == o,
            None => true,
        },
        depth >= height(*expr) ==> match pure_value(*expr, old(env).view()) {
            Some(Ok(v)) => r is Ok && r->Ok_0@ == v && final(env).view() == old(env).view()
                && final(out)@ == old(out)@,
            Some(Err(_)) => r is Err && final(env).view() == old(env).view() && final(out)@ == old(
                out,
            )@,
            None => true,
        },
        match expr {
            Expr::Num(s) => {
                &&& (r is Ok ==> (r->Ok_0 is Float <==> has_dot(s@)))
                &&& (is_numeral(s@) ==> r is Ok && r->Ok_0@ == Val::Int(numeral_value(s@)))
            },
            Expr::Str(s) => r is Ok && r->Ok_0@ == Val::Str(s@),
            Expr::Var(n) => (r is Ok <==> old(env).view().contains_key(n@)) && (r is Ok
                ==> r->Ok_0@ == old(env).view()[n@]@),
            Expr::Call(name, args) => {
                &&& (!defs.view().contains_key(name@) ==> r is Err)
                &&& (defs.view().contains_key(name@) && defs.view()[name@].params@.len()
                    != args@.len() ==> r is Err)
            },
            Expr::Infix(target, op, value) => op == '=' ==> match **target {
                Expr::Var(n) => r is Ok ==> final(env).view().contains_key(n@)
                    && final(env).view()[n@]@ == r->Ok_0@ && (assigns_nothing(**value)
                    ==> final(env).view() == old(env).view().insert(n@, final(env).view()[n@])),
                _ => r is Err,
            },
            _ => true,
        },
    decreases depth, 0nat,
{
    match expr {
        Expr::Num(s) => eval_num(fl, s),
        Expr::Str(s) => Ok(Value::String(copy_chars(s))),
        Expr::Var(id) => {
            match env.get(id) {
                Some(v) => Ok(v.copy()),
                None => {
                    let mut m = chars_of("Cannot evaluate uninitialized variable: ");
                    push_all(&mut m, id);
                    Err(m)
                },
            }
        },
        Expr::Call(name, args) => {
            let def = match defs.get(name) {
                Some(d) => d,
                None => {
                    let mut m = chars_of("Function '");
                    push_all(&mut m, name);
                    push_str(&mut m, "' is not defined");
                    return Err(m);
                },
            };
            if def.params.len() != args.len() {
                let mut m = chars_of("Function '");
                push_all(&mut m, name);
                push_str(&mut m, "' expects ");
                let expected = crate::integer::usize_text(def.params.len());
                push_all(&mut m, &expected);
                push_str(&mut m, " arguments, but received ");
                let received = crate::integer::usize_text(args.len());
                push_all(&mut m, &received);
                return Err(m);
            }
            if depth == 0 {
                return Err(too_deep());
            }
            let mut values: Vec<Value> = Vec::new();
            let mut i: usize = 0;
            let ghost whole = list_ev(args@, 0, vals(env.view()), defs.view(), lines(out@), (depth - 1) as nat, Seq::empty());
            assert(values@.map_values(|v: Value| v@) =~= Seq::<Val>::empty());
            while i < args.len()
                invariant
                    env.wf(),
                    defs.wf(),
                    i <= args@.len(),
                    depth > 0,
                    !calls_nothing(*expr),
                    pure_value(*expr, old(env).view()) is None,
                    assigns_nothing(*expr) ==> forall|j: int|
                        0 <= j < args@.len() ==> assigns_nothing(#[trigger] args@[j]),
                    values@.len() == i,
                    old(out)@.is_prefix_of(out@),
                    assigns_nothing(*expr) ==> env.view() == old(env).view(),
                    *def == defs.view()[name@],
                    defs.view().contains_key(name@),
                    def.params@.len() == args@.len(),
                    whole is Some ==> whole == list_ev(args@, i as int, vals(env.view()), defs.view(), lines(out@), (depth - 1) as nat, values@.map_values(|v: Value| v@)),
                    ev(*expr, vals(old(env).view()), defs.view(), lines(old(out)@), depth as nat) == match whole {
                        None => None,
                        Some((Err(_), e2, o2)) => Some((Err(()), e2, o2)),
                        Some((Ok(vs), e2, o2)) => match call_ev(defs.view()[name@], vs, defs.view(), o2, (depth - 1) as nat) {
                            None => None,
                            Some((res, o3)) => Some((
                                match res {
                                    Ok(v) => Ok(v),
                                    Err(_) => Err(()),
                                },
                                e2,
                                o3,
                            )),
                        },
                    },
                decreases args@.len() - i,
            {
                let ghost before = values@;
                let v = eval(fl, &args[i], env, defs, out, depth - 1)?;
                values.push(v);
                assert(values@.map_values(|v: Value| v@) =~= before.map_values(|v: Value| v@).push(v@));
                i = i + 1;
            }
            execute_function(fl, name, def, values, defs, out, depth - 1)
        },
        Expr::Infix(lhs, op, rhs) => {
            if *op == '=' {
                let var_name = match &**lhs {
                    Expr::Var(id) => id,
                    _ => {
                        return Err(chars_of("Assignment target must be a variable"));
                    },
                };
                if depth == 0 {
                    return Err(too_deep());
                }
                let val = eval(fl, rhs, env, defs, out, depth - 1)?;
                let ghost before = env.view();
                let name = copy_chars(var_name);
                let stored = val.copy();
                env.insert(name, stored);
                assert(vals(env.view()) =~= vals(before).insert(var_name@, val@));
                Ok(val)
            } else {
                if depth == 0 {
                    return Err(too_deep());
                }
                let left = eval(fl, lhs, env, defs, out, depth - 1)?;
                let right = eval(fl, rhs, env, defs, out, depth - 1)?;
                arith(fl, *op, &left, &right)
            }
        },
        Expr::Prefix(op, operand) => {
            if depth == 0 {
                return Err(too_deep());
            }
            let v = eval(fl, operand, env, defs, out, depth - 1)?;
            apply_prefix(*op, v)
        },
        Expr::Cmp(lhs, op, rhs) => {
            if depth == 0 {
                return Err(too_deep());
            }
            let left = eval(fl, lhs, env, defs, out, depth - 1)?;
            let right = eval(fl, rhs, env, defs, out, depth - 1)?;
            let b = compare(fl, op, &left, &right)?;
            Ok(Value::Boolean(b))
        },
        Expr::Logic(lhs, op, rhs) => {
            if depth == 0 {
                return Err(too_deep());
            }
            let left = eval(fl, lhs, env, defs, out, depth - 1)?;
            match short_circuit(op, &left) {
                Some(v) => {
                    return Ok(v);
                },
                None => {},
            }
            let right = eval(fl, rhs, env, defs, out, depth - 1)?;
            combine_logic(op, &left, &right)
        },
    }
}

/// How an error inside a function body is reported: the function's name
/// and the 1-based index of the statement that failed, then the error.
pub open spec fn call_error_prefix(name: Seq<char>, k: nat) -> Seq<char> {
    "Function '"@ + name + "' Execution Error (Stmt "@ + nat_text(k) + "): "@
}

/// Runs the body of `def` with its parameters bound to `args` in a fresh
/// environment: the result of the first `return`, else the value of the
/// last statement, else Void. The caller's variables are out of its reach.
pub fn execute_function<F: FloatArith>(
    fl: &F,
    fn_name: &Vec<char>,
    def: &FuncDef,
    args: Vec<Value>,
    defs: &FuncDefs,
    out: &mut Vec<Emission>,
    depth: u64,
) -> (r: Result<Value, Vec<char>>)
    requires
        defs.wf(),
        args@.len() == def.params@.len(),
    ensures
        old(out)@.is_prefix_of(final(out)@),
        def.body@.len() == 0 ==> r is Ok && r->Ok_0 is Void,
        r is Err ==> exists|k: nat|
            1 <= k <= def.body@.len() && call_error_prefix(fn_name@, k).is_prefix_of(r->Err_0@),
        match call_ev(*def, args@.map_values(|v: Value| v@), defs.view(), lines(old(out)@), depth as nat) {
            Some((res, o)) => (r is Ok <==> res is Ok) && (r is Ok ==> r->Ok_0@ == res->Ok_0)
                && lines(final(out)@) == o && (res is Err ==> call_error_prefix(fn_name@, res->Err_0).is_prefix_of(r->Err_0@)),
            None => true,
        },
    decreases depth, 0nat,
{
    let ghost argv = args@.map_values(|v: Value| v@);
    let ghost params = def.params@;
    let mut local: Environment = Table::new();
    let mut i: usize = 0;
    assert(vals(local.view()) =~= bind(params.subrange(0, 0), argv.subrange(0, 0)));
    while i < def.params.len()
        invariant
            local.wf(),
            i <= def.params@.len(),
            args@.len() == def.params@.len(),
            params == def.params@,
            argv == args@.map_values(|v: Value| v@),
            vals(local.view()) == bind(params.subrange(0, i as int), argv.subrange(0, i as int)),
        decreases def.params@.len() - i,
    {
        let ghost before = local.view();
        let name = copy_chars(&def.params[i]);
        let value = args[i].copy();
        local.insert(name, value);
        i = i + 1;
        proof {
            let ps = params.subrange(0, i as int);
            let vs = argv.subrange(0, i as int);
            assert(ps.drop_last() =~= params.subrange(0, i - 1));
            assert(vs.drop_last() =~= argv.subrange(0, i - 1));
            assert(vals(local.view()) =~= vals(before).insert(params[i - 1]@, argv[i - 1]));
        }
    }
    assert(params.subrange(0, i as int) =~= params);
    assert(argv.subrange(0, i as int) =~= argv);
    let ghost whole = call_ev(*def, argv, defs.view(), lines(old(out)@), depth as nat);
    let mut last = Value::Void;
    let mut k: usize = 0;
    while k < def.body.len()
        invariant
            local.wf(),
            defs.wf(),
            k <= def.body@.len(),
            old(out)@.is_prefix_of(out@),
            def.body@.len() == 0 ==> last is Void,
            whole == call_ev(*def, argv, defs.view(), lines(old(out)@), depth as nat),
            argv == args@.map_values(|v: Value| v@),
            whole is Some ==> whole == body_ev(def.body@, k as int, vals(local.view()), defs.view(), lines(out@), depth as nat, last@),
        decreases def.body@.len() - k,
    {
        let ghost out_before = out@;
        let step = if depth == 0 {
            Err(too_deep())
        } else {
            run_statement_in_function(fl, &def.body[k], &mut local, defs, out, depth - 1)
        };
        match step {
            Ok(FunctionControlFlow::Return(v)) => {
                return Ok(v);
            },
            Ok(FunctionControlFlow::Continue(v)) => {
                last = v;
            },
            Ok(FunctionControlFlow::Print(text)) => {
                let ghost mid = out@;
                let ghost t = text@;
                out.push(Emission { text, origin: Origin::FunctionBody(k + 1) });
                assert(lines(out@) =~= lines(mid).push((t, Origin::FunctionBody((k + 1) as usize))));
            },
            Err(e) => {
                let mut m = chars_of("Function '");
                push_all(&mut m, fn_name);
                push_str(&mut m, "' Execution Error (Stmt ");
                let n = crate::integer::usize_text(k + 1);
                push_all(&mut m, &n);
                push_str(&mut m, "): ");
                let ghost prefix = m@;
                push_all(&mut m, &e);
                proof {
                    assert(prefix == call_error_prefix(fn_name@, (k + 1) as nat));
                    assert(m@.subrange(0, prefix.len() as int) =~= prefix);
                }
                return Err(m);
            },
        }
        k = k + 1;
    }
    Ok(last)
}

/// The text that a print statement emits: the one argument's printed form,
/// or the format string with its placeholders filled.
pub fn render_print<F: FloatArith>(fl: &F, format: &Option<Vec<char>>, values: &Vec<Value>) -> (r: Result<Vec<char>, Vec<char>>)
    ensures
        format is None ==> (r is Ok <==> values@.len() == 1),
        format is None && values@.len() == 1 && !(values@[0] is Float) ==> r->Ok_0@ == print_text(values@[0]@),
        format is Some ==> (r is Err <==> values@.len() > placeholder_count(format->0@)),
        format is Some && (forall|i: int| 0 <= i < values@.len() ==> !(#[trigger] values@[i] is Float)) ==> match substitute(format->0@, values@.map_values(|v: Value| print_text(v@))) {
            Some(s) => r is Ok && r->Ok_0@ == s,
            None => r is Err,
        },
{
    match format {
        Some(f) => {
            let mut texts_v: Vec<Vec<char>> = Vec::new();
            let mut i: usize = 0;
            while i < values.len()
                invariant
                    i <= values@.len(),
                    texts_v@.len() == i,
                    forall|j: int| 0 <= j < i && !(values@[j] is Float) ==> (#[trigger] texts_v@[j])@ == print_text(values@[j]@),
                decreases values@.len() - i,
            {
                texts_v.push(values[i].printable(fl));
                i = i + 1;
            }
            proof {
                if forall|i: int| 0 <= i < values@.len() ==> !(#[trigger] values@[i] is Float) {
                    assert(texts(texts_v@) =~= values@.map_values(|v: Value| print_text(v@)));
                }
            }
            fill_placeholders(f, &texts_v)
        },
        None => {
            if values.len() != 1 {
                return Err(chars_of("Simple print (without format string) expects exactly one argument"));
            }
            Ok(values[0].printable(fl))
        },
    }
}

/// [`print_ev`] over the views of the values is what [`render_print`]
/// states over the values.
proof fn lemma_print_ev(format: &Option<Vec<char>>, values: Seq<Value>)
    ensures
        ({
            let vs = values.map_values(|v: Value| v@);
            &&& vs.len() == values.len()
            &&& forall|i: int| 0 <= i < values.len() ==> #[trigger] vs[i] == values[i]@
            &&& (exists|i: int| 0 <= i < values.len() && values[i] is Float) <==> (exists|i: int|
                0 <= i < vs.len() && vs[i] is Float)
            &&& vs.map_values(|v: Val| print_text(v)) == values.map_values(|v: Value| print_text(v@))
        }),
{
    let vs = values.map_values(|v: Value| v@);
    if exists|i: int| 0 <= i < values.len() && values[i] is Float {
        let i = choose|i: int| 0 <= i < values.len() && values[i] is Float;
        assert(vs[i] is Float);
    }
    if exists|i: int| 0 <= i < vs.len() && vs[i] is Float {
        let i = choose|i: int| 0 <= i < vs.len() && vs[i] is Float;
        assert(values[i] is Float);
    }
    assert(vs.map_values(|v: Val| print_text(v)) =~= values.map_values(|v: Value| print_text(v@)));
}

/// Evaluates the arguments of a print statement, in order.
fn eval_all<F: FloatArith>(
    fl: &F,
    exprs: &Vec<Expr>,
    env: &mut Environment,
    defs: &FuncDefs,
    out: &mut Vec<Emission>,
    depth: u64,
) -> (r: Result<Vec<Value>, Vec<char>>)
    requires
        old(env).wf(),
        defs.wf(),
    ensures
        final(env).wf(),
        old(out)@.is_prefix_of(final(out)@),
        r is Ok ==> r->Ok_0@.len() == exprs@.len(),
        (forall|i: int| 0 <= i < exprs@.len() ==> calls_nothing(#[trigger] exprs@[i])) ==> final(out)@ == old(out)@,
        match list_ev(exprs@, 0, vals(old(env).view()), defs.view(), lines(old(out)@), depth as nat, Seq::empty()) {
            Some((res, env2, o)) => (r is Ok <==> res is Ok) && (r is Ok ==> r->Ok_0@.map_values(|v: Value| v@) == res->Ok_0)
                && vals(final(env).view()) == env2 && lines(final(out)@) == o,
            None => true,
        },
    decreases depth, 1nat,
{
    let ghost whole = list_ev(exprs@, 0, vals(env.view()), defs.view(), lines(out@), depth as nat, Seq::empty());
    let mut values: Vec<Value> = Vec::new();
    let mut i: usize = 0;
    assert(values@.map_values(|v: Value| v@) =~= Seq::<Val>::empty());
    while i < exprs.len()
        invariant
            env.wf(),
            defs.wf(),
            i <= exprs@.len(),
            values@.len() == i,
            old(out)@.is_prefix_of(out@),
            (forall|j: int| 0 <= j < exprs@.len() ==> calls_nothing(#[trigger] exprs@[j])) ==> out@ == old(out)@,
            whole == list_ev(exprs@, 0, vals(old(env).view()), defs.view(), lines(old(out)@), depth as nat, Seq::empty()),
            whole is Some ==> whole == list_ev(exprs@, i as int, vals(env.view()), defs.view(), lines(out@), depth as nat, values@.map_values(|v: Value| v@)),
        decreases exprs@.len() - i,
    {
        let ghost before = values@;
        let v = eval(fl, &exprs[i], env, defs, out, depth)?;
        values.push(v);
        assert(values@.map_values(|v: Value| v@) =~= before.map_values(|v: Value| v@).push(v@));
        i = i + 1;
    }
    Ok(values)
}

/// Runs one statement of a function body. `return` yields `Return` from
/// any depth of `if` blocks; a definition is an error here.
pub fn run_statement_in_function<F: FloatArith>(
    fl: &F,
    stmt: &Statement,
    env: &mut Environment,
    defs: &FuncDefs,
    out: &mut Vec<Emission>,
    depth: u64,
) -> (r: Result<FunctionControlFlow, Vec<char>>)
    requires
        old(env).wf(),
        defs.wf(),
    ensures
        final(env).wf(),
        old(out)@.is_prefix_of(final(out)@),
        stmt is Def ==> r is Err,
        stmt is If && never_boolean(stmt->If_0) ==> r is Err,
        match stmt_ev(*stmt, vals(old(env).view()), defs.view(), lines(old(out)@), depth as nat) {
            Some((res, env2, o)) => (r is Ok <==> res is Ok) && (r is Ok ==> r->Ok_0@ == res->Ok_0)
                && vals(final(env).view()) == env2 && lines(final(out)@) == o,
            None => true,
        },
        if_is_quiet(*stmt) ==> (r is Ok ==> r->Ok_0 is Continue && r->Ok_0->Continue_0 is Void)
            && final(out)@ == old(out)@,
        (stmt is Return && stmt->Return_0 is None) ==> r is Ok && r->Ok_0 is Return
            && r->Ok_0->Return_0 is Void,
        r is Ok ==> match stmt {
            Statement::Expr(_) => r->Ok_0 is Continue,
            Statement::Print(_, _) => r->Ok_0 is Print,
            Statement::Return(_) => r->Ok_0 is Return,
            _ => !(r->Ok_0 is Print),
        },
        match stmt {
            Statement::Expr(e) => depth >= height(*e) ==> match pure_value(*e, old(env).view()) {
                Some(Ok(v)) => r is Ok && r->Ok_0->Continue_0@ == v,
                Some(Err(_)) => r is Err,
                None => true,
            },
            Statement::Return(Some(e)) => depth >= height(*e) ==> match pure_value(*e, old(env).view()) {
                Some(Ok(v)) => r is Ok && r->Ok_0->Return_0@ == v,
                Some(Err(_)) => r is Err,
                None => true,
            },
            _ => true,
        },
    decreases depth, 2nat,
{
    match stmt {
        Statement::Expr(e) => {
            let v = eval(fl, e, env, defs, out, depth)?;
            Ok(FunctionControlFlow::Continue(v))
        },
        Statement::Print(format, exprs) => {
            let values = eval_all(fl, exprs, env, defs, out, depth)?;
            proof {
                lemma_print_ev(format, values@);
            }
            let text = render_print(fl, format, &values)?;
            Ok(FunctionControlFlow::Print(text))
        },
        Statement::If(cond, then_body, else_body) => {
            let c = eval(fl, cond, env, defs, out, depth)?;
            let take_then = match c {
                Value::Boolean(b) => b,
                _ => {
                    let mut m = chars_of("'if' condition must evaluate to a Boolean, found ");
                    let shown = c.display(fl);
                    push_all(&mut m, &shown);
                    return Err(m);
                },
            };
            let body = if take_then {
                then_body
            } else {
                match else_body {
                    Some(b) => b,
                    None => {
                        return Ok(FunctionControlFlow::Continue(Value::Void));
                    },
                }
            };
            let ghost quiet = if_is_quiet(*stmt);
            let ghost whole = stmt_ev(*stmt, vals(old(env).view()), defs.view(), lines(old(out)@), depth as nat);
            assert(whole is Some ==> whole == block_ev(body@, 0, vals(env.view()), defs.view(), lines(out@), depth as nat));
            let mut k: usize = 0;
            while k < body.len()
                invariant
                    env.wf(),
                    defs.wf(),
                    k <= body@.len(),
                    old(out)@.is_prefix_of(out@),
                    quiet == if_is_quiet(*stmt),
                    stmt is If,
                    !never_boolean(stmt->If_0),
                    quiet ==> body@.len() == 0 && out@ == old(out)@,
                    whole == stmt_ev(*stmt, vals(old(env).view()), defs.view(), lines(old(out)@), depth as nat),
                    whole is Some ==> whole == block_ev(body@, k as int, vals(env.view()), defs.view(), lines(out@), depth as nat),
                decreases body@.len() - k,
            {
                if depth == 0 {
                    return Err(too_deep());
                }
                match run_statement_in_function(fl, &body[k], env, defs, out, depth - 1)? {
                    FunctionControlFlow::Return(v) => {
                        return Ok(FunctionControlFlow::Return(v));
                    },
                    FunctionControlFlow::Continue(_) => {},
                    FunctionControlFlow::Print(text) => {
                        let ghost mid = out@;
                        let ghost t = text@;
                        out.push(Emission { text, origin: Origin::Block });
                        assert(lines(out@) =~= lines(mid).push((t, Origin::Block)));
                    },
                }
                k = k + 1;
            }
            Ok(FunctionControlFlow::Continue(Value::Void))
        },
        Statement::Def(name, _, _) => {
            let mut m = chars_of("Function definition '");
            push_all(&mut m, name);
            push_str(&mut m, "' is only allowed at the top level");
            Err(m)
        },
        Statement::Return(e) => {
            match e {
                Some(e) => {
                    let v = eval(fl, e, env, defs, out, depth)?;
                    Ok(FunctionControlFlow::Return(v))
                },
                None => Ok(FunctionControlFlow::Return(Value::Void)),
            }
        },
    }
}

/// Runs the statements of a top-level `if` or `else` block, in order.
fn run_top_block<F: FloatArith>(
    fl: &F,
    body: Vec<Statement>,
    env: &mut Environment,
    defs: &mut FuncDefs,
    out: &mut Vec<Emission>,
    depth: u64,
) -> (r: Result<(), Vec<char>>)
    requires
        old(env).wf(),
        old(defs).wf(),
    ensures
        final(env).wf(),
        final(defs).wf(),
        old(out)@.is_prefix_of(final(out)@),
        (forall|i: int| 0 <= i < body@.len() ==> free_of_defs(#[trigger] body@[i])) ==> final(defs).view() == old(defs).view(),
        body@.len() == 0 ==> r is Ok && final(out)@ == old(out)@,
        match top_block_ev(body@, 0, vals(old(env).view()), old(defs).view(), lines(old(out)@), depth as nat) {
            Some((res, env2, defs2, o)) => (r is Ok <==> res is Ok) && vals(final(env).view()) == env2
                && final(defs).view() == defs2 && lines(final(out)@) == o,
            None => true,
        },
    decreases depth, 0nat,
{
    let ghost orig = body@;
    let ghost n = orig.len();
    let ghost whole = top_block_ev(orig, 0, vals(env.view()), defs.view(), lines(out@), depth as nat);
    let ghost no_defs = forall|i: int| 0 <= i < orig.len() ==> free_of_defs(#[trigger] orig[i]);
    let mut pending: Vec<Statement> = Vec::new();
    let mut rest = body;
    while rest.len() > 0
        invariant
            no_defs == forall|i: int| 0 <= i < orig.len() ==> free_of_defs(#[trigger] orig[i]),
            orig == body@,
            orig.len() == 0 ==> rest@.len() == 0 && pending@.len() == 0,
            no_defs ==> forall|i: int| 0 <= i < rest@.len() ==> free_of_defs(#[trigger] rest@[i]),
            no_defs ==> forall|i: int| 0 <= i < pending@.len() ==> free_of_defs(#[trigger] pending@[i]),
            n == orig.len(),
            rest@ == orig.subrange(0, rest@.len() as int),
            rest@.len() + pending@.len() == n,
            forall|j: int| 0 <= j < pending@.len() ==> #[trigger] pending@[j] == orig[n - 1 - j],
        decreases rest@.len(),
    {
        let ghost r0 = rest@;
        let s = rest.pop().unwrap();
        assert(s == orig[rest@.len() as int]);
        pending.push(s);
        assert(rest@ =~= orig.subrange(0, rest@.len() as int));
    }
    while pending.len() > 0
        invariant
            env.wf(),
            defs.wf(),
            old(out)@.is_prefix_of(out@),
            no_defs == forall|i: int| 0 <= i < orig.len() ==> free_of_defs(#[trigger] orig[i]),
            orig == body@,
            orig.len() == 0 ==> pending@.len() == 0 && out@ == old(out)@,
            no_defs ==> forall|i: int| 0 <= i < pending@.len() ==> free_of_defs(#[trigger] pending@[i]),
            no_defs ==> defs.view() == old(defs).view(),
            n == orig.len(),
            pending@.len() <= n,
            forall|j: int| 0 <= j < pending@.len() ==> #[trigger] pending@[j] == orig[n - 1 - j],
            whole == top_block_ev(orig, 0, vals(old(env).view()), old(defs).view(), lines(old(out)@), depth as nat),
            whole is Some ==> whole == top_block_ev(orig, n - pending@.len(), vals(env.view()), defs.view(), lines(out@), depth as nat),
        decreases pending@.len(),
    {
        let ghost k = n - pending@.len();
        let s = pending.pop().unwrap();
        assert(s == orig[k]);
        if depth == 0 {
            return Err(too_deep());
        }
        run_statement(fl, s, env, defs, out, depth - 1)?;
    }
    Ok(())
}

/// Runs one top-level statement and returns the display form of an
/// expression statement's value (empty for Void and for other statements).
/// A print emits its line to `out` and returns it; a definition enters or
/// replaces the function in `defs`.
pub fn run_statement<F: FloatArith>(
    fl: &F,
    stmt: Statement,
    env: &mut Environment,
    defs: &mut FuncDefs,
    out: &mut Vec<Emission>,
    depth: u64,
) -> (r: Result<Vec<char>, Vec<char>>)
    requires
        old(env).wf(),
        old(defs).wf(),
    ensures
        final(env).wf(),
        final(defs).wf(),
        old(out)@.is_prefix_of(final(out)@),
        match stmt {
            Statement::Def(name, params, body) => r is Ok && r->Ok_0@.len() == 0
                && final(defs).view() == old(defs).view().insert(name@, (FuncDef { params, body }))
                && final(env).view() == old(env).view() && final(out)@ == old(out)@,
            Statement::Return(_) => r is Ok && r->Ok_0@.len() == 0 && final(defs).view() == old(defs).view(),
            Statement::Print(_, _) => r is Ok ==> final(out)@.len() > 0 && final(out)@.last().text@
                == r->Ok_0@,
            Statement::Expr(e) => depth >= height(e) ==> match pure_value(e, old(env).view()) {
                Some(Ok(v)) => !(v is Float) ==> r is Ok && r->Ok_0@ == (if v is Void {
                    Seq::<char>::empty()
                } else {
                    display_text(v)
                }),
                Some(Err(_)) => r is Err,
                None => true,
            },
            _ => true,
        },
        free_of_defs(stmt) ==> final(defs).view() == old(defs).view(),
        stmt is If && never_boolean(stmt->If_0) ==> r is Err,
        if_is_quiet(stmt) ==> final(out)@ == old(out)@ && (r is Ok ==> r->Ok_0@.len() == 0),
        match top_ev(stmt, vals(old(env).view()), old(defs).view(), lines(old(out)@), depth as nat) {
            Some((res, env2, defs2, o)) => (r is Ok <==> res is Ok) && (r is Ok ==> r->Ok_0@ == res->Ok_0)
                && vals(final(env).view()) == env2 && final(defs).view() == defs2 && lines(final(out)@) == o,
            None => true,
        },
    decreases depth, 1nat,
{
    match stmt {
        Statement::Expr(e) => {
            let v = eval(fl, &e, env, defs, out, depth)?;
            match v {
                Value::Void => Ok(Vec::new()),
                _ => Ok(v.display(fl)),
            }
        },
        Statement::Print(format, exprs) => {
            let values = eval_all(fl, &exprs, env, defs, out, depth)?;
            proof {
                lemma_print_ev(&format, values@);
            }
            let text = render_print(fl, &format, &values)?;
            let copy = copy_chars(&text);
            let ghost mid = out@;
            out.push(Emission { text, origin: Origin::TopLevel });
            assert(lines(out@) =~= lines(mid).push((copy@, Origin::TopLevel)));
            Ok(copy)
        },
        Statement::Def(name, params, body) => {
            defs.insert(name, FuncDef { params, body });
            Ok(Vec::new())
        },
        Statement::Return(_) => Ok(Vec::new()),
        Statement::If(cond, then_body, else_body) => {
            let c = eval(fl, &cond, env, defs, out, depth)?;
            let take_then = match c {
                Value::Boolean(b) => b,
                _ => {
                    let mut m = chars_of("'if' condition must evaluate to a Boolean, found ");
                    let shown = c.display(fl);
                    push_all(&mut m, &shown);
                    return Err(m);
                },
            };
            if take_then {
                run_top_block(fl, then_body, env, defs, out, depth)?;
            } else {
                match else_body {
                    Some(b) => {
                        run_top_block(fl, b, env, defs, out, depth)?;
                    },
                    None => {},
                }
            }
            Ok(Vec::new())
        },
    }
}

proof fn lemma_stmts_view_len(s: Seq<Statement>)
    ensures
        stmts_view(s).len() == s.len(),
    decreases s.len(),
{
    if s.len() > 0 {
        lemma_stmts_view_len(s.drop_last());
    }
}

/// What one top-level statement did: the lines it printed, and its result
/// or its error.
pub struct StatementRecord {
    pub emitted: Vec<Emission>,
    pub result: Result<Vec<char>, Vec<char>>,
}

/// Runs parsed top-level statements in a fresh environment, one after
/// another, up to the first runtime error.
pub fn run_statements<F: FloatArith>(fl: &F, program: Vec<Statement>, depth: u64) -> (r: Vec<StatementRecord>)
    ensures
        forall|i: int| 0 <= i < r@.len() - 1 ==> (#[trigger] r@[i]).result is Ok,
        r@.len() <= program@.len(),
        r@.len() < program@.len() ==> r@.len() > 0 && r@.last().result is Err,
        match program_ev(program@, 0, Map::empty(), Map::empty(), depth as nat) {
            Some(recs) => r@.map_values(|x: StatementRecord| record_view(x)) == recs,
            None => true,
        },
{
    let ghost orig = program@;
    let ghost n = orig.len();
    let mut pending: Vec<Statement> = Vec::new();
    let mut rest = program;
    while rest.len() > 0
        invariant
            n == orig.len(),
            orig == program@,
            rest@ == orig.subrange(0, rest@.len() as int),
            rest@.len() + pending@.len() == n,
            forall|j: int| 0 <= j < pending@.len() ==> #[trigger] pending@[j] == orig[n - 1 - j],
        decreases rest@.len(),
    {
        let s = rest.pop().unwrap();
        assert(s == orig[rest@.len() as int]);
        pending.push(s);
        assert(rest@ =~= orig.subrange(0, rest@.len() as int));
    }
    let mut env: Environment = Table::new();
    let mut defs: FuncDefs = Table::new();
    let mut records: Vec<StatementRecord> = Vec::new();
    let ghost whole = program_ev(orig, 0, Map::empty(), Map::empty(), depth as nat);
    assert(vals(env.view()) =~= Map::<Seq<char>, Val>::empty());
    assert(records@.map_values(|x: StatementRecord| record_view(x)) =~= Seq::<(Result<Seq<char>, ()>, Seq<Line>)>::empty());
    while pending.len() > 0
        invariant
            env.wf(),
            defs.wf(),
            n == orig.len(),
            orig == program@,
            records@.len() + pending@.len() == n,
            forall|j: int| 0 <= j < pending@.len() ==> #[trigger] pending@[j] == orig[n - 1 - j],
            forall|i: int| 0 <= i < records@.len() ==> (#[trigger] records@[i]).result is Ok,
            whole == program_ev(orig, 0, Map::empty(), Map::empty(), depth as nat),
            whole is Some ==> match program_ev(orig, n - pending@.len(), vals(env.view()), defs.view(), depth as nat) {
                Some(tail) => whole->0 == records@.map_values(|x: StatementRecord| record_view(x)) + tail,
                None => false,
            },
        decreases pending@.len(),
    {
        let ghost k = n - pending@.len();
        let ghost before = records@;
        let s = pending.pop().unwrap();
        assert(s == orig[k]);
        let mut emitted: Vec<Emission> = Vec::new();
        assert(lines(emitted@) =~= Seq::<Line>::empty());
        let ghost env_k = vals(env.view());
        let ghost defs_k = defs.view();
        let ghost step = top_ev(s, env_k, defs_k, Seq::empty(), depth as nat);
        let result = run_statement(fl, s, &mut env, &mut defs, &mut emitted, depth);
        let failed = result.is_err();
        let record = StatementRecord { emitted, result };
        let ghost rv = record_view(record);
        records.push(record);
        assert(records@.map_values(|x: StatementRecord| record_view(x)) =~= before.map_values(|x: StatementRecord| record_view(x)).push(rv));
        if failed {
            proof {
                if whole is Some {
                    assert(step is Some);
                    let t = step->0;
                    assert(rv == (t.0, t.3));
                    assert(program_ev(orig, k, env_k, defs_k, depth as nat) == Some(seq![rv]));
                    assert(whole->0 =~= records@.map_values(|x: StatementRecord| record_view(x)));
                }
            }
            return records;
        }
        proof {
            if whole is Some {
                assert(step is Some);
                let t = step->0;
                assert(rv == (t.0, t.3));
                let tail = program_ev(orig, k + 1, vals(env.view()), defs.view(), depth as nat)->0;
                assert(seq![rv] + tail =~= seq![rv].add(tail));
                assert(before.map_values(|x: StatementRecord| record_view(x)) + (seq![rv] + tail) =~= records@.map_values(|x: StatementRecord| record_view(x)) + tail);
            }
        }
    }
    proof {
        if whole is Some {
            assert(whole->0 =~= records@.map_values(|x: StatementRecord| record_view(x)));
        }
    }
    records
}

/// Parses and runs a whole program, one top-level statement after another,
/// up to the first runtime error. A parse error runs nothing. `depth`
/// bounds how deeply expressions, blocks and calls may nest; past it a
/// statement fails instead of exhausting the stack.
pub fn run_program<F: FloatArith>(fl: &F, source: &str, depth: u64) -> (r: Result<Vec<StatementRecord>, Vec<char>>)
    ensures
        r is Err <==> program_of(tokens_from(source@, 0), Seq::empty()) is None,
        r is Ok ==> forall|i: int| 0 <= i < r->Ok_0@.len() - 1 ==> (#[trigger] r->Ok_0@[i]).result is Ok,
        r is Ok ==> {
            let n = program_of(tokens_from(source@, 0), Seq::empty())->0.len();
            &&& r->Ok_0@.len() <= n
            &&& r->Ok_0@.len() < n ==> r->Ok_0@.len() > 0 && r->Ok_0@.last().result is Err
        },
        r is Ok ==> exists|p: Seq<Statement>|
            stmts_view(p) == program_of(tokens_from(source@, 0), Seq::empty())->0 && match program_ev(p, 0, Map::empty(), Map::empty(), depth as nat) {
                Some(recs) => r->Ok_0@.map_values(|x: StatementRecord| record_view(x)) == recs,
                None => true,
            },
{
    let program = crate::parser::parse_program(source)?;
    proof {
        lemma_stmts_view_len(program@);
    }
    let ghost p = program@;
    let records = run_statements(fl, program, depth);
    assert(stmts_view(p) == program_of(tokens_from(source@, 0), Seq::empty())->0);
    Ok(records)
}

} // verus!
