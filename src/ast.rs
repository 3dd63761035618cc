//! The syntax tree that the parser builds and the evaluator walks.
use vstd::prelude::*;
use crate::text::copy_chars;
use crate::text::push_all;

verus! {

/// An expression.
pub enum Expr {
    Var(Vec<char>),
    /// A numeric literal kept as written, so that `1` and `1.0` stay apart.
    Num(Vec<char>),
    Str(Vec<char>),
    Prefix(char, Box<Expr>),
    /// Arithmetic (`+ - * / % ^`) and assignment (`=`).
    Infix(Box<Expr>, char, Box<Expr>),
    /// Comparison: `== != < > <= >= === !==`.
    Cmp(Box<Expr>, Vec<char>, Box<Expr>),
    /// `and` / `or`.
    Logic(Box<Expr>, Vec<char>, Box<Expr>),
    Call(Vec<char>, Vec<Expr>),
}

/// A statement.
pub enum Statement {
    Expr(Expr),
    /// An optional format string and the arguments.
    Print(Option<Vec<char>>, Vec<Expr>),
    /// A function definition: name, parameter names, body.
    Def(Vec<char>, Vec<Vec<char>>, Vec<Statement>),
    Return(Option<Expr>),
    If(Expr, Vec<Statement>, Option<Vec<Statement>>),
}

/// The mathematical form of an [`Expr`].
pub enum ExprV {
    Var(Seq<char>),
    Num(Seq<char>),
    Str(Seq<char>),
    Prefix(char, Box<ExprV>),
    Infix(Box<ExprV>, char, Box<ExprV>),
    Cmp(Box<ExprV>, Seq<char>, Box<ExprV>),
    Logic(Box<ExprV>, Seq<char>, Box<ExprV>),
    Call(Seq<char>, Seq<ExprV>),
}

/// The forms of a list of expressions.
pub open spec fn exprs_view(s: Seq<Expr>) -> Seq<ExprV>
    decreases s,
{
    if s.len() == 0 {
        Seq::empty()
    } else {
        exprs_view(s.drop_last()).push(expr_view(s.last()))
    }
}

/// The form of an expression.
pub open spec fn expr_view(e: Expr) -> ExprV
    decreases e,
{
    match e {
        Expr::Var(s) => ExprV::Var(s@),
        Expr::Num(s) => ExprV::Num(s@),
        Expr::Str(s) => ExprV::Str(s@),
        Expr::Prefix(op, x) => ExprV::Prefix(op, Box::new(expr_view(*x))),
        Expr::Infix(l, op, r) => ExprV::Infix(Box::new(expr_view(*l)), op, Box::new(expr_view(*r))),
        Expr::Cmp(l, op, r) => ExprV::Cmp(Box::new(expr_view(*l)), op@, Box::new(expr_view(*r))),
        Expr::Logic(l, op, r) => ExprV::Logic(Box::new(expr_view(*l)), op@, Box::new(expr_view(*r))),
        Expr::Call(n, args) => ExprV::Call(n@, exprs_view(args@)),
    }
}

/// The mathematical form of a [`Statement`].
pub enum StmtV {
    Expr(ExprV),
    Print(Option<Seq<char>>, Seq<ExprV>),
    Def(Seq<char>, Seq<Seq<char>>, Seq<StmtV>),
    Return(Option<ExprV>),
    If(ExprV, Seq<StmtV>, Option<Seq<StmtV>>),
}

/// The texts of a list of names.
pub open spec fn names_view(s: Seq<Vec<char>>) -> Seq<Seq<char>> {
    s.map_values(|n: Vec<char>| n@)
}

/// The forms of a list of statements.
pub open spec fn stmts_view(s: Seq<Statement>) -> Seq<StmtV>
    decreases s,
{
    if s.len() == 0 {
        Seq::empty()
    } else {
        stmts_view(s.drop_last()).push(stmt_view(s.last()))
    }
}

/// The form of a statement.
pub open spec fn stmt_view(s: Statement) -> StmtV
    decreases s,
{
    match s {
        Statement::Expr(e) => StmtV::Expr(expr_view(e)),
        Statement::Print(f, args) => StmtV::Print(
            match f {
                Some(t) => Some(t@),
                None => None,
            },
            exprs_view(args@),
        ),
        Statement::Def(n, ps, body) => StmtV::Def(n@, names_view(ps@), stmts_view(body@)),
        Statement::Return(e) => StmtV::Return(
            match e {
                Some(x) => Some(expr_view(x)),
                None => None,
            },
        ),
        Statement::If(c, t, e) => StmtV::If(
            expr_view(c),
            stmts_view(t@),
            match e {
                Some(b) => Some(stmts_view(b@)),
                None => None,
            },
        ),
    }
}

/// `(l op r)`.
pub open spec fn binary_text(l: Seq<char>, op: Seq<char>, r: Seq<char>) -> Seq<char> {
    seq!['('] + l + seq![' '] + op + seq![' '] + r + seq![')']
}

/// The rendered texts of a list of expressions, joined by `, `.
pub open spec fn args_text(s: Seq<Expr>) -> Seq<char>
    decreases s,
{
    if s.len() == 0 {
        Seq::empty()
    } else if s.len() == 1 {
        expr_text(s[0])
    } else {
        args_text(s.drop_last()) + seq![',', ' '] + expr_text(s.last())
    }
}

/// The rendered text of an expression: fully parenthesized, strings quoted,
/// calls as `name(a, b)`.
pub open spec fn expr_text(e: Expr) -> Seq<char>
    decreases e,
{
    match e {
        Expr::Var(s) => s@,
        Expr::Num(s) => s@,
        Expr::Str(s) => seq!['"'] + s@ + seq!['"'],
        Expr::Prefix(op, x) => seq!['(', op, ' '] + expr_text(*x) + seq![')'],
        Expr::Infix(l, op, r) => binary_text(expr_text(*l), seq![op], expr_text(*r)),
        Expr::Cmp(l, op, r) => binary_text(expr_text(*l), op@, expr_text(*r)),
        Expr::Logic(l, op, r) => binary_text(expr_text(*l), op@, expr_text(*r)),
        Expr::Call(n, args) => n@ + seq!['('] + args_text(args@) + seq![')'],
    }
}

impl Expr {
    /// A readable form of the expression, fully parenthesized: `(1 + (2 * 3))`,
    /// `f(x, "s")`.
    pub fn render(&self) -> (r: Vec<char>)
        ensures
            r@ == expr_text(*self),
        decreases self,
    {
        let mut r: Vec<char> = Vec::new();
        match self {
            Expr::Var(id) => {
                push_all(&mut r, id);
            },
            Expr::Num(s) => {
                push_all(&mut r, s);
            },
            Expr::Str(s) => {
                r.push('"');
                push_all(&mut r, s);
                r.push('"');
                assert(r@ =~= seq!['"'] + s@ + seq!['"']);
            },
            Expr::Prefix(op, x) => {
                r.push('(');
                r.push(*op);
                r.push(' ');
                let t = x.render();
                push_all(&mut r, &t);
                r.push(')');
                assert(r@ =~= seq!['(', *op, ' '] + t@ + seq![')']);
            },
            Expr::Infix(l, op, x) => {
                let mut o: Vec<char> = Vec::new();
                o.push(*op);
                assert(o@ =~= seq![*op]);
                render_binary(&mut r, &l.render(), &o, &x.render());
            },
            Expr::Cmp(l, op, x) => {
                render_binary(&mut r, &l.render(), op, &x.render());
            },
            Expr::Logic(l, op, x) => {
                render_binary(&mut r, &l.render(), op, &x.render());
            },
            Expr::Call(name, args) => {
                push_all(&mut r, name);
                r.push('(');
                let ghost head = r@;
                let mut i: usize = 0;
                assert(args@.subrange(0, 0) =~= Seq::<Expr>::empty());
                assert(r@ =~= head + args_text(args@.subrange(0, 0)));
                while i < args.len()
                    invariant
                        i <= args@.len(),
                        *self == Expr::Call(*name, *args),
                        r@ == head + args_text(args@.subrange(0, i as int)),
                    decreases args@.len() - i,
                {
                    proof {
                        vstd::std_specs::vec::axiom_vec_index_decreases(*args, i as int);
                        assert(decreases_to!(*self => self->Call_1));
                    }
                    let ghost before = r@;
                    if i > 0 {
                        r.push(',');
                        r.push(' ');
                    }
                    let t = args[i].render();
                    push_all(&mut r, &t);
                    proof {
                        let sub = args@.subrange(0, i + 1);
                        assert(sub.drop_last() =~= args@.subrange(0, i as int));
                        assert(sub.last() == args@[i as int]);
                        if i == 0 {
                            assert(r@ =~= head + args_text(sub));
                        } else {
                            assert(r@ =~= head + args_text(sub));
                        }
                    }
                    i = i + 1;
                }
                r.push(')');
                assert(args@.subrange(0, args@.len() as int) =~= args@);
                assert(r@ =~= name@ + seq!['('] + args_text(args@) + seq![')']);
            },
        }
        r
    }
}

/// Appends `(l op x)` to `r`.
fn render_binary(r: &mut Vec<char>, l: &Vec<char>, op: &Vec<char>, x: &Vec<char>)
    ensures
        final(r)@ == old(r)@ + binary_text(l@, op@, x@),
{
    r.push('(');
    push_all(r, l);
    r.push(' ');
    push_all(r, op);
    r.push(' ');
    push_all(r, x);
    r.push(')');
    assert(r@ =~= old(r)@ + binary_text(l@, op@, x@));
}

/// Whether `e` assigns no variable anywhere outside the bodies of the
/// functions that it calls.
pub open spec fn assigns_nothing(e: Expr) -> bool
    decreases e,
{
    match e {
        Expr::Var(_) | Expr::Num(_) | Expr::Str(_) => true,
        Expr::Prefix(_, x) => assigns_nothing(*x),
        Expr::Infix(l, op, r) => op != '=' && assigns_nothing(*l) && assigns_nothing(*r),
        Expr::Cmp(l, _, r) => assigns_nothing(*l) && assigns_nothing(*r),
        Expr::Logic(l, _, r) => assigns_nothing(*l) && assigns_nothing(*r),
        Expr::Call(_, args) => forall|i: int|
            0 <= i < args@.len() ==> assigns_nothing(#[trigger] args@[i]),
    }
}

/// Whether `e` calls no function anywhere.
pub open spec fn calls_nothing(e: Expr) -> bool
    decreases e,
{
    match e {
        Expr::Var(_) | Expr::Num(_) | Expr::Str(_) => true,
        Expr::Prefix(_, x) => calls_nothing(*x),
        Expr::Infix(l, _, r) => calls_nothing(*l) && calls_nothing(*r),
        Expr::Cmp(l, _, r) => calls_nothing(*l) && calls_nothing(*r),
        Expr::Logic(l, _, r) => calls_nothing(*l) && calls_nothing(*r),
        Expr::Call(..) => false,
    }
}

/// Whether no statement of `s`, at any depth, is a function definition.
pub open spec fn free_of_defs(s: Statement) -> bool
    decreases s,
{
    match s {
        Statement::Def(..) => false,
        Statement::If(_, t, e) => (forall|i: int| 0 <= i < t@.len() ==> free_of_defs(#[trigger] t@[i]))
            && match e {
            Some(b) => forall|i: int| 0 <= i < b@.len() ==> free_of_defs(#[trigger] b@[i]),
            None => true,
        },
        _ => true,
    }
}

/// Whether a statement sequence holds no definition at any depth.
pub open spec fn block_free_of_defs(b: Seq<Statement>) -> bool {
    forall|i: int| 0 <= i < b.len() ==> free_of_defs(#[trigger] b[i])
}

/// Whether a parsed program is well placed: definitions stand only at the
/// top level, and their bodies hold none.
pub open spec fn defs_at_top_only(p: Seq<Statement>) -> bool {
    forall|i: int|
        0 <= i < p.len() ==> match #[trigger] p[i] {
            Statement::Def(_, _, body) => block_free_of_defs(body@),
            s => free_of_defs(s),
        }
}

/// Whether `e` is a use of the variable named `x`.
pub open spec fn is_var(e: Expr, x: Seq<char>) -> bool {
    match e {
        Expr::Var(n) => n@ == x,
        _ => false,
    }
}

/// Whether `e` is the assignment `x = x op rhs`.
pub open spec fn is_op_assignment(e: Expr, x: Seq<char>, op: char, rhs: Expr) -> bool {
    match e {
        Expr::Infix(target, '=', value) => is_var(*target, x) && match *value {
            Expr::Infix(l, o, r) => is_var(*l, x) && o == op && *r == rhs,
            _ => false,
        },
        _ => false,
    }
}

/// The form of `x = x op rhs`.
pub open spec fn op_assignment_view(x: Seq<char>, op: char, rhs: ExprV) -> ExprV {
    ExprV::Infix(
        Box::new(ExprV::Var(x)),
        '=',
        Box::new(ExprV::Infix(Box::new(ExprV::Var(x)), op, Box::new(rhs))),
    )
}

/// `x op= rhs`, written out as `x = x op rhs`.
pub fn desugar_compound(x: &Vec<char>, op: char, rhs: Expr) -> (r: Expr)
    ensures
        is_op_assignment(r, x@, op, rhs),
        expr_view(r) == op_assignment_view(x@, op, expr_view(rhs)),
{
    let ghost rv = expr_view(rhs);
    let v1 = Expr::Var(copy_chars(x));
    assert(expr_view(v1) == ExprV::Var(x@));
    let inner = Expr::Infix(Box::new(v1), op, Box::new(rhs));
    assert(expr_view(inner) == ExprV::Infix(Box::new(ExprV::Var(x@)), op, Box::new(rv)));
    let v2 = Expr::Var(copy_chars(x));
    assert(expr_view(v2) == ExprV::Var(x@));
    let ghost iv = expr_view(inner);
    let r = Expr::Infix(Box::new(v2), '=', Box::new(inner));
    assert(expr_view(r) == ExprV::Infix(Box::new(ExprV::Var(x@)), '=', Box::new(iv)));
    r
}

} // verus!
