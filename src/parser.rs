//! The parser: tokens to statements, with Pratt precedence climbing for
//! expressions.
use vstd::prelude::*;
use crate::ast::Expr;
use crate::ast::ExprV;
use crate::ast::StmtV;
use crate::ast::stmt_view;
use crate::ast::stmts_view;
use crate::ast::names_view;
use crate::ast::expr_view;
use crate::ast::exprs_view;
use crate::ast::op_assignment_view;
use crate::ast::Statement;
use crate::ast::block_free_of_defs;
use crate::ast::defs_at_top_only;
use crate::ast::desugar_compound;
use crate::ast::free_of_defs;
use crate::lexer::Lexer;
use crate::lexer::Tok;
use crate::lexer::token_at;
use crate::lexer::tokens_from;
use crate::lexer::Token;
use crate::text::chars_of;
use crate::text::copy_chars;
use crate::text::is_word;
use crate::text::push_all;
use crate::text::push_str;

verus! {

/// The binding powers of the prefix operators.
pub fn prefix_binding_power(op: char) -> (r: ((), u8))
    ensures
        r.1 == (if op == '+' || op == '-' { 10u8 } else { 0u8 }),
{
    if op == '+' || op == '-' {
        ((), 10)
    } else {
        ((), 0)
    }
}

/// The binding powers of the infix operators: left, right, and whether the
/// operator compares.
pub open spec fn infix_power(op: Seq<char>) -> Option<(u8, u8, bool)> {
    if op == "="@ {
        Some((2u8, 1u8, false))
    } else if op == "or"@ {
        Some((3u8, 4u8, false))
    } else if op == "and"@ {
        Some((5u8, 6u8, false))
    } else if op == "=="@ || op == "!="@ || op == "<"@ || op == ">"@ || op == "<="@ || op == ">="@
        || op == "==="@ || op == "!=="@ {
        Some((7u8, 8u8, true))
    } else if op == "+"@ || op == "-"@ {
        Some((9u8, 10u8, false))
    } else if op == "*"@ || op == "/"@ || op == "%"@ {
        Some((11u8, 12u8, false))
    } else if op == "^"@ {
        Some((13u8, 14u8, false))
    } else {
        None
    }
}

/// The binding powers of the infix operator `op`, if it is one.
pub fn binding_power(op: &Vec<char>) -> (r: Option<(u8, u8, bool)>)
    ensures
        r == infix_power(op@),
{
    if is_word(op, "=") {
        Some((2, 1, false))
    } else if is_word(op, "or") {
        Some((3, 4, false))
    } else if is_word(op, "and") {
        Some((5, 6, false))
    } else if is_word(op, "==") || is_word(op, "!=") || is_word(op, "<") || is_word(op, ">")
        || is_word(op, "<=") || is_word(op, ">=") || is_word(op, "===") || is_word(op, "!==") {
        Some((7, 8, true))
    } else if is_word(op, "+") || is_word(op, "-") {
        Some((9, 10, false))
    } else if is_word(op, "*") || is_word(op, "/") || is_word(op, "%") {
        Some((11, 12, false))
    } else if is_word(op, "^") {
        Some((13, 14, false))
    } else {
        None
    }
}

/// Whether an expression can start with the token `t`.
pub open spec fn starts_expression(t: Tok) -> bool {
    match t {
        Tok::Number(_) | Tok::Ident(_) | Tok::Str(_) => true,
        Tok::Op(c) => c == '(' || c == '+' || c == '-',
        _ => false,
    }
}

/// The tokens `ts` start with the operator `c`.
pub open spec fn next_is(ts: Seq<Tok>, c: char) -> bool {
    ts.len() > 0 && ts[0] == Tok::Op(c)
}

/// The text of an infix operator token, whether it is `and` / `or`, and its
/// character when it is a one-character operator; `None` for a token that
/// ends an expression.
pub open spec fn infix_text(t: Tok) -> Option<(Seq<char>, bool, char)> {
    match t {
        Tok::Keyword(k) => if k == "and"@ || k == "or"@ {
            Some((k, true, ' '))
        } else {
            None
        },
        Tok::Op(c) => Some((seq![c], false, c)),
        Tok::Cmp(s) => Some((s, false, ' ')),
        _ => None,
    }
}

/// Whether `op` is a compound assignment such as `+=`.
pub open spec fn is_compound(op: Seq<char>) -> bool {
    op.len() == 2 && op[1] == '=' && (op[0] == '+' || op[0] == '-' || op[0] == '*' || op[0] == '/'
        || op[0] == '%' || op[0] == '^')
}

/// The node for `lhs op rhs`.
pub open spec fn infix_node(lhs: ExprV, op: Seq<char>, is_cmp: bool, is_logic: bool, c: char, rhs: ExprV) -> ExprV {
    if is_cmp {
        ExprV::Cmp(Box::new(lhs), op, Box::new(rhs))
    } else if is_logic {
        ExprV::Logic(Box::new(lhs), op, Box::new(rhs))
    } else {
        ExprV::Infix(Box::new(lhs), c, Box::new(rhs))
    }
}

/// An operand at the start of `ts`, and the tokens after it; `None` where
/// the tokens do not start one.
pub open spec fn operand_of(ts: Seq<Tok>) -> Option<(ExprV, Seq<Tok>)>
    decreases ts.len(), 0nat,
{
    if ts.len() == 0 {
        None
    } else {
        let r = ts.drop_first();
        match ts[0] {
            Tok::Number(s) => Some((ExprV::Num(s), r)),
            Tok::Str(s) => Some((ExprV::Str(s), r)),
            Tok::Ident(id) => if next_is(r, '(') {
                match arguments_of(r.drop_first()) {
                    Some((args, r2)) => Some((ExprV::Call(id, args), r2)),
                    None => None,
                }
            } else {
                Some((ExprV::Var(id), r))
            },
            Tok::Op(c) => if c == '(' {
                match expression_of(r, 0) {
                    Some((e, r2)) => if next_is(r2, ')') {
                        Some((e, r2.drop_first()))
                    } else {
                        None
                    },
                    None => None,
                }
            } else if c == '+' || c == '-' {
                match expression_of(r, 10) {
                    Some((e, r2)) => Some((ExprV::Prefix(c, Box::new(e)), r2)),
                    None => None,
                }
            } else {
                None
            },
            _ => None,
        }
    }
}

/// The arguments of a call, after its `(`, up to and past its `)`.
pub open spec fn arguments_of(ts: Seq<Tok>) -> Option<(Seq<ExprV>, Seq<Tok>)>
    decreases ts.len(), 3nat,
{
    if next_is(ts, ')') {
        Some((Seq::empty(), ts.drop_first()))
    } else {
        argument_list(ts, Seq::empty())
    }
}

/// The rest of an argument list, after the arguments `acc`.
pub open spec fn argument_list(ts: Seq<Tok>, acc: Seq<ExprV>) -> Option<(Seq<ExprV>, Seq<Tok>)>
    decreases ts.len(), 2nat,
{
    match expression_of(ts, 0) {
        Some((a, r)) => if next_is(r, ')') {
            Some((acc.push(a), r.drop_first()))
        } else if next_is(r, ',') && r.len() <= ts.len() {
            argument_list(r.drop_first(), acc.push(a))
        } else {
            None
        },
        None => None,
    }
}

/// The expression at the start of `ts` whose operators bind at least as
/// tightly as `min_bp`, and the tokens after it.
pub open spec fn expression_of(ts: Seq<Tok>, min_bp: u8) -> Option<(ExprV, Seq<Tok>)>
    decreases ts.len(), 1nat,
{
    match operand_of(ts) {
        Some((lhs, r)) => if r.len() < ts.len() {
            operators_of(r, lhs, min_bp)
        } else {
            None
        },
        None => None,
    }
}

/// The operators that follow the operand `lhs` while they bind at least as
/// tightly as `min_bp`: precedence climbing.
pub open spec fn operators_of(ts: Seq<Tok>, lhs: ExprV, min_bp: u8) -> Option<(ExprV, Seq<Tok>)>
    decreases ts.len(), 4nat,
{
    if ts.len() == 0 {
        Some((lhs, ts))
    } else {
        match infix_text(ts[0]) {
            None => Some((lhs, ts)),
            Some((op, is_logic, c)) => if is_compound(op) {
                if 2 < min_bp {
                    Some((lhs, ts))
                } else {
                    match expression_of(ts.drop_first(), 1) {
                        Some((rhs, r2)) => match lhs {
                            ExprV::Var(x) => if r2.len() < ts.len() {
                                operators_of(r2, op_assignment_view(x, op[0], rhs), min_bp)
                            } else {
                                None
                            },
                            _ => None,
                        },
                        None => None,
                    }
                }
            } else {
                match infix_power(op) {
                    None => Some((lhs, ts)),
                    Some((l_bp, r_bp, is_cmp)) => if l_bp < min_bp {
                        Some((lhs, ts))
                    } else {
                        match expression_of(ts.drop_first(), r_bp) {
                            Some((rhs, r2)) => if r2.len() < ts.len() {
                                operators_of(r2, infix_node(lhs, op, is_cmp, is_logic, c, rhs), min_bp)
                            } else {
                                None
                            },
                            None => None,
                        }
                    },
                }
            },
        }
    }
}

/// The tokens `ts` start with the keyword `k`.
pub open spec fn next_is_keyword(ts: Seq<Tok>, k: Seq<char>) -> bool {
    ts.len() > 0 && ts[0] == Tok::Keyword(k)
}

/// A statement at the start of `ts`, and the tokens after it; `top` tells
/// whether it stands at the top level.
pub open spec fn statement_of(ts: Seq<Tok>, top: bool) -> Option<(StmtV, Seq<Tok>)>
    decreases ts.len(), 5nat,
{
    if ts.len() == 0 {
        None
    } else if ts[0] == Tok::Keyword("print"@) {
        print_of(ts.drop_first())
    } else if ts[0] == Tok::Keyword("fn"@) {
        if top {
            fn_of(ts.drop_first())
        } else {
            None
        }
    } else if ts[0] == Tok::Keyword("return"@) {
        return_of(ts.drop_first())
    } else if ts[0] == Tok::Keyword("if"@) {
        if_of(ts.drop_first())
    } else if ts[0] == Tok::Op('=') || ts[0] == Tok::Keyword("def"@) || ts[0] == Tok::Keyword(
        "else"@,
    ) {
        None
    } else {
        match expression_of(ts, 0) {
            Some((e, r)) => Some((StmtV::Expr(e), r)),
            None => None,
        }
    }
}

/// The statements of a block after its `[`, up to and past its `]`, after
/// the statements `acc`.
pub open spec fn block_of(ts: Seq<Tok>, acc: Seq<StmtV>) -> Option<(Seq<StmtV>, Seq<Tok>)>
    decreases ts.len(), 6nat,
{
    if ts.len() == 0 || ts[0] == Tok::Eof {
        None
    } else if ts[0] == Tok::Op(']') {
        Some((acc, ts.drop_first()))
    } else {
        match statement_of(ts, false) {
            Some((st, r)) => if r.len() < ts.len() {
                block_of(r, acc.push(st))
            } else {
                None
            },
            None => None,
        }
    }
}

/// A bracketed block: `[`, its statements, `]`.
pub open spec fn bracketed_block(ts: Seq<Tok>, bound: nat) -> Option<(Seq<StmtV>, Seq<Tok>)>
    decreases bound, 7nat,
{
    if next_is(ts, '[') && ts.len() <= bound {
        block_of(ts.drop_first(), Seq::empty())
    } else {
        None
    }
}

/// The rest of an `if` statement after the keyword.
pub open spec fn if_of(ts: Seq<Tok>) -> Option<(StmtV, Seq<Tok>)>
    decreases ts.len(), 8nat,
{
    if !next_is(ts, '(') {
        None
    } else {
        match expression_of(ts.drop_first(), 0) {
            None => None,
            Some((c, r1)) => if !next_is(r1, ')') || r1.len() > ts.len() {
                None
            } else {
                match bracketed_block(r1.drop_first(), (ts.len() - 1) as nat) {
                    None => None,
                    Some((t, r3)) => if next_is_keyword(r3, "else"@) && r3.len() <= ts.len() {
                        match bracketed_block(r3.drop_first(), (ts.len() - 1) as nat) {
                            None => None,
                            Some((e, r5)) => Some((StmtV::If(c, t, Some(e)), r5)),
                        }
                    } else {
                        Some((StmtV::If(c, t, None), r3))
                    },
                }
            },
        }
    }
}

/// The rest of a `return` statement after the keyword.
pub open spec fn return_of(ts: Seq<Tok>) -> Option<(StmtV, Seq<Tok>)>
    decreases ts.len(), 8nat,
{
    if ts.len() > 0 && starts_expression(ts[0]) {
        match expression_of(ts, 0) {
            Some((e, r)) => Some((StmtV::Return(Some(e)), r)),
            None => None,
        }
    } else {
        Some((StmtV::Return(None), ts))
    }
}

/// The arguments after a format string: each after a comma, up to and past
/// the closing `)`.
pub open spec fn format_args_of(ts: Seq<Tok>, acc: Seq<ExprV>) -> Option<(Seq<ExprV>, Seq<Tok>)>
    decreases ts.len(), 8nat,
{
    if next_is(ts, ',') {
        match expression_of(ts.drop_first(), 0) {
            Some((e, r)) => if r.len() < ts.len() {
                format_args_of(r, acc.push(e))
            } else {
                None
            },
            None => None,
        }
    } else if next_is(ts, ')') {
        Some((acc, ts.drop_first()))
    } else {
        None
    }
}

/// The rest of a `print` statement after the keyword.
pub open spec fn print_of(ts: Seq<Tok>) -> Option<(StmtV, Seq<Tok>)>
    decreases ts.len(), 9nat,
{
    if !next_is(ts, '(') {
        None
    } else {
        let r = ts.drop_first();
        if r.len() > 0 && r[0] is Str {
            match format_args_of(r.drop_first(), Seq::empty()) {
                Some((args, r2)) => Some((StmtV::Print(Some(r[0]->Str_0), args), r2)),
                None => None,
            }
        } else if next_is(r, ')') {
            Some((StmtV::Print(None, Seq::empty()), r.drop_first()))
        } else {
            match expression_of(r, 0) {
                Some((e, r2)) => if next_is(r2, ')') {
                    Some((StmtV::Print(None, seq![e]), r2.drop_first()))
                } else {
                    None
                },
                None => None,
            }
        }
    }
}

/// The parameter names of a definition after its `(`, up to and past its `)`.
pub open spec fn params_of(ts: Seq<Tok>, acc: Seq<Seq<char>>) -> Option<(Seq<Seq<char>>, Seq<Tok>)>
    decreases ts.len(),
{
    if ts.len() == 0 {
        None
    } else if ts[0] == Tok::Op(')') {
        Some((acc, ts.drop_first()))
    } else {
        match ts[0] {
            Tok::Ident(id) => {
                let r = ts.drop_first();
                if next_is(r, ',') {
                    params_of(r.drop_first(), acc.push(id))
                } else if next_is(r, ')') {
                    params_of(r, acc.push(id))
                } else {
                    None
                }
            },
            _ => None,
        }
    }
}

/// The rest of a definition after the keyword `fn`.
pub open spec fn fn_of(ts: Seq<Tok>) -> Option<(StmtV, Seq<Tok>)>
    decreases ts.len(), 8nat,
{
    if ts.len() == 0 {
        None
    } else {
        match ts[0] {
            Tok::Ident(name) => {
                let r = ts.drop_first();
                if !next_is(r, '(') {
                    None
                } else {
                    match params_of(r.drop_first(), Seq::empty()) {
                        None => None,
                        Some((ps, r2)) => if r2.len() <= r.len() {
                            match bracketed_block(r2, (ts.len() - 1) as nat) {
                                Some((body, r3)) => Some((StmtV::Def(name, ps, body), r3)),
                                None => None,
                            }
                        } else {
                            None
                        },
                    }
                }
            },
            _ => None,
        }
    }
}

/// A whole program: top-level statements up to `Eof`, after `acc`.
pub open spec fn program_of(ts: Seq<Tok>, acc: Seq<StmtV>) -> Option<Seq<StmtV>>
    decreases ts.len(),
{
    if ts.len() == 0 || ts[0] == Tok::Eof {
        Some(acc)
    } else {
        match statement_of(ts, true) {
            Some((st, r)) => if r.len() < ts.len() {
                program_of(r, acc.push(st))
            } else {
                None
            },
            None => None,
        }
    }
}

/// A copy of a token.
fn copy_token(t: &Token) -> (r: Token)
    ensures
        r@ == t@,
{
    match t {
        Token::Ident(s) => Token::Ident(copy_chars(s)),
        Token::Keyword(s) => Token::Keyword(copy_chars(s)),
        Token::Number(s) => Token::Number(copy_chars(s)),
        Token::StringLiteral(s) => Token::StringLiteral(copy_chars(s)),
        Token::Op(c) => Token::Op(*c),
        Token::Cmp(s) => Token::Cmp(copy_chars(s)),
        Token::Eof => Token::Eof,
    }
}

/// A readable form of a token, for diagnostics.
pub fn describe_token(t: &Token) -> (r: Vec<char>)
{
    let mut r: Vec<char> = Vec::new();
    match t {
        Token::Ident(s) => {
            push_str(&mut r, "Ident(\"");
            push_all(&mut r, s);
            push_str(&mut r, "\")");
        },
        Token::Keyword(s) => {
            push_str(&mut r, "Keyword(\"");
            push_all(&mut r, s);
            push_str(&mut r, "\")");
        },
        Token::Number(s) => {
            push_str(&mut r, "Number(\"");
            push_all(&mut r, s);
            push_str(&mut r, "\")");
        },
        Token::StringLiteral(s) => {
            push_str(&mut r, "StringLiteral(\"");
            push_all(&mut r, s);
            push_str(&mut r, "\")");
        },
        Token::Op(c) => {
            push_str(&mut r, "Op('");
            r.push(*c);
            push_str(&mut r, "')");
        },
        Token::Cmp(s) => {
            push_str(&mut r, "Cmp(\"");
            push_all(&mut r, s);
            push_str(&mut r, "\")");
        },
        Token::Eof => {
            push_str(&mut r, "Eof");
        },
    }
    r
}

/// `msg` followed by a description of `t`.
fn found(msg: &str, t: &Token) -> Vec<char> {
    let mut r = chars_of(msg);
    push_str(&mut r, ", found ");
    let d = describe_token(t);
    push_all(&mut r, &d);
    r
}

/// A parser over the token stream of one source text.
pub struct Parser {
    pub lexer: Lexer,
    /// The token under the cursor.
    pub current: Token,
}

impl Parser {
    /// The lexer is well formed, the current token came from it, and once
    /// it is `Eof` the whole input has been read.
    pub open spec fn wf(&self) -> bool {
        &&& self.lexer.wf()
        &&& (self.current is Eof ==> self.lexer.pos == self.lexer.input@.len())
    }

    /// The tokens from the current one to the end, `Eof` last.
    pub open spec fn rest(&self) -> Seq<Tok> {
        if self.current is Eof {
            seq![Tok::Eof]
        } else {
            seq![self.current@] + tokens_from(self.lexer.input@, self.lexer.pos as int)
        }
    }

    /// A measure of the input left: it falls with each token taken.
    pub open spec fn measure(&self) -> nat {
        self.lexer.remaining() + if self.current is Eof { 0nat } else { 1nat }
    }

    pub fn new(input: &str) -> (r: Parser)
        ensures
            r.wf(),
            r.lexer.input@ == input@,
            r.rest() == tokens_from(input@, 0),
            (r.current@, r.lexer.pos as int) == token_at(input@, 0),
    {
        let mut lexer = Lexer::new(input);
        let current = lexer.next_token();
        let r = Parser { lexer, current };
        proof {
            if !(r.current is Eof) {
                assert(tokens_from(input@, 0) == seq![r.current@] + tokens_from(input@, r.lexer.pos as int));
            }
        }
        r
    }

    /// Moves to the next token.
    pub fn advance(&mut self)
        requires
            old(self).wf(),
        ensures
            final(self).wf(),
            final(self).lexer.input == old(self).lexer.input,
            final(self).measure() <= old(self).measure(),
            !(old(self).current is Eof) ==> final(self).measure() < old(self).measure(),
            !(old(self).current is Eof) ==> final(self).rest() == old(self).rest().drop_first(),
            old(self).current is Eof ==> final(self).rest() == old(self).rest(),
    {
        let ghost s = self.lexer.input@;
        let ghost p = self.lexer.pos as int;
        self.current = self.lexer.next_token();
        proof {
            if !(old(self).current is Eof) {
                assert(old(self).rest().drop_first() =~= tokens_from(s, p));
                if !(self.current is Eof) {
                    assert(tokens_from(s, p) == seq![self.current@] + tokens_from(s, self.lexer.pos as int));
                } else {
                    assert(tokens_from(s, p) == seq![Tok::Eof]);
                }
            }
        }
    }

    /// Whether the current token is the operator `c`.
    fn at_op(&self, c: char) -> (r: bool)
        ensures
            r == (self.current == Token::Op(c)),
            r == (self.current@ == Tok::Op(c)),
            r == next_is(self.rest(), c),
    {
        match &self.current {
            Token::Op(d) => *d == c,
            _ => false,
        }
    }

    /// Whether the current token is the keyword `k`.
    fn at_keyword(&self, k: &str) -> (r: bool)
        ensures
            r == (self.current is Keyword && self.current->Keyword_0@ == k@),
    {
        match &self.current {
            Token::Keyword(w) => is_word(w, k),
            _ => false,
        }
    }

    fn at_eof(&self) -> (r: bool)
        ensures
            r == (self.current is Eof),
    {
        matches!(self.current, Token::Eof)
    }

    /// Parses a whole program: statements up to the end of the input.
    pub fn parse(&mut self) -> (r: Result<Vec<Statement>, Vec<char>>)
        requires
            old(self).wf(),
        ensures
            final(self).wf(),
            r is Ok ==> defs_at_top_only(r->Ok_0@),
            match program_of(old(self).rest(), Seq::empty()) {
                Some(p) => r is Ok && stmts_view(r->Ok_0@) == p,
                None => r is Err,
            },
    {
        let mut statements: Vec<Statement> = Vec::new();
        while !self.at_eof()
            invariant
                self.wf(),
                defs_at_top_only(statements@),
                program_of(old(self).rest(), Seq::empty()) == program_of(self.rest(), stmts_view(statements@)),
            decreases self.measure(),
        {
            let ghost before = statements@;
            let stmt = self.parse_statement(true)?;
            statements.push(stmt);
            assert(statements@.drop_last() =~= before);
        }
        Ok(statements)
    }

    /// Parses one statement; `top` tells whether it stands at the top level,
    /// the one place where a definition may stand.
    fn parse_statement(&mut self, top: bool) -> (r: Result<Statement, Vec<char>>)
        requires
            old(self).wf(),
            !(old(self).current is Eof),
        ensures
            final(self).wf(),
            final(self).measure() <= old(self).measure(),
            r is Ok ==> final(self).measure() < old(self).measure(),
            r is Ok ==> final(self).rest().len() < old(self).rest().len(),
            match statement_of(old(self).rest(), top) {
                Some((sv, ts)) => r is Ok && stmt_view(r->Ok_0) == sv && final(self).rest() == ts,
                None => r is Err,
            },
            r is Ok && !top ==> free_of_defs(r->Ok_0),
            r is Ok && top ==> match r->Ok_0 {
                Statement::Def(_, _, body) => block_free_of_defs(body@),
                s => free_of_defs(s),
            },
        decreases old(self).measure(), 5nat,
    {
        proof {
            crate::lexer::lemma_keywords_distinct();
        }
        if self.at_keyword("print") {
            self.parse_print_statement()
        } else if self.at_keyword("fn") {
            if top {
                self.parse_fn_statement()
            } else {
                Err(chars_of("Function definitions are only allowed at the top level, not inside a block"))
            }
        } else if self.at_keyword("return") {
            self.parse_return_statement()
        } else if self.at_keyword("if") {
            self.parse_if_statement()
        } else if self.at_op('=') {
            Err(chars_of("The assignment operator '=' cannot start a statement. Assignment must follow a variable (e.g., x = 10)."))
        } else if self.at_keyword("def") {
            Err(chars_of("The 'def' keyword is deprecated. Please use 'fn' for function definitions (e.g., fn name(...) [...])"))
        } else if self.at_keyword("else") {
            Err(chars_of("The 'else' keyword must immediately follow a closing ']' of an 'if' block."))
        } else {
            let expr = self.expr_bp(0)?;
            Ok(Statement::Expr(expr))
        }
    }

    /// Parses the statements of a block up to its closing `]`, which it
    /// takes; the opening `[` has been taken already.
    pub fn parse_block_body(&mut self) -> (r: Result<Vec<Statement>, Vec<char>>)
        requires
            old(self).wf(),
        ensures
            final(self).wf(),
            final(self).measure() <= old(self).measure(),
            r is Ok ==> final(self).measure() < old(self).measure(),
            r is Ok ==> final(self).rest().len() < old(self).rest().len(),
            match block_of(old(self).rest(), Seq::empty()) {
                Some((b, ts)) => r is Ok && stmts_view(r->Ok_0@) == b && final(self).rest() == ts,
                None => r is Err,
            },
            r is Ok ==> block_free_of_defs(r->Ok_0@),
        decreases old(self).measure(), 6nat,
    {
        let mut statements: Vec<Statement> = Vec::new();
        while !self.at_op(']') && !self.at_eof()
            invariant
                self.wf(),
                self.measure() <= old(self).measure(),
                self.rest().len() <= old(self).rest().len(),
                block_free_of_defs(statements@),
                block_of(old(self).rest(), Seq::empty()) == block_of(self.rest(), stmts_view(statements@)),
            decreases self.measure(),
        {
            let ghost before = statements@;
            let stmt = self.parse_statement(false)?;
            statements.push(stmt);
            assert(statements@.drop_last() =~= before);
        }
        if !self.at_op(']') {
            return Err(found("Unclosed block body. Expected matching ']'", &self.current));
        }
        self.advance();
        Ok(statements)
    }

    /// `[ BODY ]`: the bracket is checked and taken, then the block.
    fn parse_bracketed_block(&mut self, what: &str) -> (r: Result<Vec<Statement>, Vec<char>>)
        requires
            old(self).wf(),
        ensures
            final(self).wf(),
            final(self).measure() <= old(self).measure(),
            r is Ok ==> final(self).measure() < old(self).measure(),
            r is Ok ==> final(self).rest().len() < old(self).rest().len(),
            match bracketed_block(old(self).rest(), old(self).rest().len()) {
                Some((b, ts)) => r is Ok && stmts_view(r->Ok_0@) == b && final(self).rest() == ts,
                None => r is Err,
            },
            r is Ok ==> block_free_of_defs(r->Ok_0@),
        decreases old(self).measure(), 7nat,
    {
        if !self.at_op('[') {
            let mut m = chars_of("Expected '[' to start ");
            push_str(&mut m, what);
            push_str(&mut m, ", found ");
            let d = describe_token(&self.current);
            push_all(&mut m, &d);
            return Err(m);
        }
        self.advance();
        self.parse_block_body()
    }
    /// `if ( EXPR ) [ BODY ]`, then optionally `else [ BODY ]`.
    fn parse_if_statement(&mut self) -> (r: Result<Statement, Vec<char>>)
        requires
            old(self).wf(),
            !(old(self).current is Eof),
        ensures
            final(self).wf(),
            final(self).measure() <= old(self).measure(),
            r is Ok ==> final(self).measure() < old(self).measure(),
            r is Ok ==> final(self).rest().len() < old(self).rest().len(),
            match if_of(old(self).rest().drop_first()) {
                Some((sv, ts)) => r is Ok && stmt_view(r->Ok_0) == sv && final(self).rest() == ts,
                None => r is Err,
            },
            r is Ok ==> r->Ok_0 is If && free_of_defs(r->Ok_0),
        decreases old(self).measure(), 3nat,
    {
        self.advance();
        if !self.at_op('(') {
            return Err(found("Expected '(' after 'if'", &self.current));
        }
        self.advance();
        let condition = self.expr_bp(0)?;
        if !self.at_op(')') {
            return Err(found("Expected ')' after if condition", &self.current));
        }
        self.advance();
        let then_body = self.parse_bracketed_block("if body")?;
        let mut else_body: Option<Vec<Statement>> = None;
        proof {
            crate::lexer::lemma_keywords_distinct();
        }
        if self.at_keyword("else") {
            self.advance();
            else_body = Some(self.parse_bracketed_block("else body")?);
        }
        Ok(Statement::If(condition, then_body, else_body))
    }

    /// `return`, with an expression when one follows.
    fn parse_return_statement(&mut self) -> (r: Result<Statement, Vec<char>>)
        requires
            old(self).wf(),
            !(old(self).current is Eof),
        ensures
            final(self).wf(),
            final(self).measure() <= old(self).measure(),
            r is Ok ==> final(self).measure() < old(self).measure(),
            r is Ok ==> final(self).rest().len() < old(self).rest().len(),
            match return_of(old(self).rest().drop_first()) {
                Some((sv, ts)) => r is Ok && stmt_view(r->Ok_0) == sv && final(self).rest() == ts,
                None => r is Err,
            },
            r is Ok ==> r->Ok_0 is Return,
        decreases old(self).measure(), 3nat,
    {
        self.advance();
        let has_expr = match &self.current {
            Token::Number(_) | Token::StringLiteral(_) | Token::Ident(_) => true,
            Token::Op(c) => *c == '(' || *c == '+' || *c == '-',
            _ => false,
        };
        if has_expr {
            let expr = self.expr_bp(0)?;
            Ok(Statement::Return(Some(expr)))
        } else {
            Ok(Statement::Return(None))
        }
    }

    /// `print(expr)` or `print("format", e1, e2, ...)`.
    fn parse_print_statement(&mut self) -> (r: Result<Statement, Vec<char>>)
        requires
            old(self).wf(),
            !(old(self).current is Eof),
        ensures
            final(self).wf(),
            final(self).measure() <= old(self).measure(),
            r is Ok ==> final(self).measure() < old(self).measure(),
            r is Ok ==> final(self).rest().len() < old(self).rest().len(),
            match print_of(old(self).rest().drop_first()) {
                Some((sv, ts)) => r is Ok && stmt_view(r->Ok_0) == sv && final(self).rest() == ts,
                None => r is Err,
            },
            r is Ok ==> r->Ok_0 is Print,
            r is Ok ==> (r->Ok_0->Print_0 is None ==> r->Ok_0->Print_1@.len() <= 1),
        decreases old(self).measure(), 3nat,
    {
        self.advance();
        if !self.at_op('(') {
            return Err(found("Expected '(' after 'print'", &self.current));
        }
        self.advance();
        let ghost after_paren = self.rest();
        let mut format_string: Option<Vec<char>> = None;
        let mut expressions: Vec<Expr> = Vec::new();
        let literal = match &self.current {
            Token::StringLiteral(s) => Some(copy_chars(s)),
            _ => None,
        };
        match literal {
            Some(s) => {
                format_string = Some(s);
                self.advance();
                while self.at_op(',')
                    invariant
                        self.wf(),
                        after_paren.len() > 0,
                        after_paren[0] is Str,
                        format_string is Some && format_string->0@ == after_paren[0]->Str_0,
                        print_of(old(self).rest().drop_first()) == match format_args_of(after_paren.drop_first(), Seq::empty()) {
                            Some((args, r2)) => Some((StmtV::Print(Some(after_paren[0]->Str_0), args), r2)),
                            None => None,
                        },
                        self.measure() < old(self).measure(),
                        self.rest().len() < old(self).rest().len(),
                        format_args_of(after_paren.drop_first(), Seq::empty()) == format_args_of(self.rest(), exprs_view(expressions@)),
                    decreases self.measure(),
                {
                    let ghost before = expressions@;
                    self.advance();
                    let expr = self.expr_bp(0)?;
                    expressions.push(expr);
                    assert(expressions@.drop_last() =~= before);
                }
            },
            None => {
                if !self.at_op(')') {
                    let expr = self.expr_bp(0)?;
                    expressions.push(expr);
                    assert(expressions@.drop_last() =~= Seq::<Expr>::empty());
                    if self.at_op(',') {
                        return Err(chars_of("When using 'print(expr)' format (without a format string), only a single expression is allowed."));
                    }
                }
            },
        }
        if !self.at_op(')') {
            return Err(found("Expected closing ')' after print arguments", &self.current));
        }
        self.advance();
        Ok(Statement::Print(format_string, expressions))
    }

    /// `fn NAME ( p1, p2, ... ) [ BODY ]`.
    fn parse_fn_statement(&mut self) -> (r: Result<Statement, Vec<char>>)
        requires
            old(self).wf(),
            !(old(self).current is Eof),
        ensures
            final(self).wf(),
            final(self).measure() <= old(self).measure(),
            r is Ok ==> final(self).measure() < old(self).measure(),
            r is Ok ==> final(self).rest().len() < old(self).rest().len(),
            match fn_of(old(self).rest().drop_first()) {
                Some((sv, ts)) => r is Ok && stmt_view(r->Ok_0) == sv && final(self).rest() == ts,
                None => r is Err,
            },
            r is Ok ==> r->Ok_0 is Def && block_free_of_defs(r->Ok_0->Def_2@),
        decreases old(self).measure(), 3nat,
    {
        self.advance();
        let fn_name = match &self.current {
            Token::Ident(id) => copy_chars(id),
            _ => {
                return Err(found("Expected function name (identifier) after 'fn'", &self.current));
            },
        };
        self.advance();
        if !self.at_op('(') {
            return Err(found("Expected '(' to start parameter list in function definition", &self.current));
        }
        self.advance();
        let ghost after_paren = self.rest();
        let ghost relation = match params_of(after_paren, Seq::empty()) {
            None => None,
            Some((ps, r2)) => if r2.len() <= after_paren.len() + 1 {
                match bracketed_block(r2, (after_paren.len() + 1) as nat) {
                    Some((body, r3)) => Some((StmtV::Def(fn_name@, ps, body), r3)),
                    None => None,
                }
            } else {
                None
            },
        };
        assert(fn_of(old(self).rest().drop_first()) == relation);
        let mut params: Vec<Vec<char>> = Vec::new();
        assert(names_view(params@) =~= Seq::<Seq<char>>::empty());
        while !self.at_op(')')
            invariant
                self.wf(),
                fn_of(old(self).rest().drop_first()) == relation,
                relation == match params_of(after_paren, Seq::empty()) {
                    None => None,
                    Some((ps, r2)) => if r2.len() <= after_paren.len() + 1 {
                        match bracketed_block(r2, (after_paren.len() + 1) as nat) {
                            Some((body, r3)) => Some((StmtV::Def(fn_name@, ps, body), r3)),
                            None => None,
                        }
                    } else {
                        None
                    },
                },
                self.measure() < old(self).measure(),
                self.rest().len() <= after_paren.len(),
                after_paren.len() < old(self).rest().len(),
                params_of(after_paren, Seq::empty()) == params_of(self.rest(), names_view(params@)),
            decreases self.measure(),
        {
            let param = match &self.current {
                Token::Ident(id) => copy_chars(id),
                Token::Eof => {
                    return Err(chars_of("Unclosed parameter list in function definition. Expected ')'"));
                },
                _ => {
                    return Err(found("Expected parameter name or ')' in function definition", &self.current));
                },
            };
            let ghost before = params@;
            self.advance();
            params.push(param);
            assert(names_view(params@) =~= names_view(before).push(param@));
            if self.at_op(',') {
                self.advance();
            } else if !self.at_op(')') {
                return Err(found("Expected ',' or ')' after parameter", &self.current));
            }
        }
        self.advance();
        let body = self.parse_bracketed_block("function body")?;
        Ok(Statement::Def(fn_name, params, body))
    }

    /// The arguments of a call up to its closing `)`, which it takes; the
    /// opening `(` has been taken already.
    fn parse_arguments(&mut self) -> (r: Result<Vec<Expr>, Vec<char>>)
        requires
            old(self).wf(),
        ensures
            final(self).wf(),
            final(self).measure() <= old(self).measure(),
            r is Ok ==> final(self).measure() < old(self).measure(),
            r is Ok ==> final(self).rest().len() < old(self).rest().len(),
            match arguments_of(old(self).rest()) {
                Some((a, ts)) => r is Ok && exprs_view(r->Ok_0@) == a && final(self).rest() == ts,
                None => r is Err,
            },
        decreases old(self).measure(), 2nat,
    {
        let mut args: Vec<Expr> = Vec::new();
        if self.at_op(')') {
            self.advance();
            return Ok(args);
        }
        loop
            invariant
                self.wf(),
                self.measure() <= old(self).measure(),
                self.rest().len() <= old(self).rest().len(),
                arguments_of(old(self).rest()) == argument_list(self.rest(), exprs_view(args@)),
            decreases self.measure(),
        {
            let ghost before = args@;
            let arg = self.expr_bp(0)?;
            args.push(arg);
            assert(args@.drop_last() =~= before);
            if self.at_op(')') {
                self.advance();
                return Ok(args);
            } else if self.at_op(',') {
                self.advance();
            } else {
                return Err(found("Expected ',' or ')' in function call arguments", &self.current));
            }
        }
    }

    /// An operand: a literal, a variable, a call, a parenthesized expression
    /// or a prefix operator applied to an operand.
    fn parse_prefix(&mut self) -> (r: Result<Expr, Vec<char>>)
        requires
            old(self).wf(),
        ensures
            final(self).wf(),
            final(self).measure() <= old(self).measure(),
            r is Ok ==> final(self).measure() < old(self).measure(),
            !starts_expression(old(self).current@) ==> r is Err,
            r is Ok ==> final(self).rest().len() < old(self).rest().len(),
            match operand_of(old(self).rest()) {
                Some((e, ts)) => r is Ok && expr_view(r->Ok_0) == e && final(self).rest() == ts,
                None => r is Err,
            },
        decreases old(self).measure(), 0nat,
    {
        let start = copy_token(&self.current);
        match start {
            Token::Number(s) => {
                self.advance();
                Ok(Expr::Num(s))
            },
            Token::Ident(id) => {
                self.advance();
                if self.at_op('(') {
                    self.advance();
                    let args = self.parse_arguments()?;
                    Ok(Expr::Call(id, args))
                } else {
                    Ok(Expr::Var(id))
                }
            },
            Token::StringLiteral(s) => {
                self.advance();
                Ok(Expr::Str(s))
            },
            Token::Op(op) => {
                if op == '(' {
                    self.advance();
                    let expr = self.expr_bp(0)?;
                    if !self.at_op(')') {
                        return Err(found("Expected ')'", &self.current));
                    }
                    self.advance();
                    Ok(expr)
                } else if op == '+' || op == '-' {
                    self.advance();
                    let (_, r_bp) = prefix_binding_power(op);
                    let rhs = self.expr_bp(r_bp)?;
                    Ok(Expr::Prefix(op, Box::new(rhs)))
                } else {
                    Err(found("Bad token in prefix (expected expression start or operator)", &self.current))
                }
            },
            _ => Err(found("Bad token in prefix (expected expression start or operator)", &self.current)),
        }
    }

    /// An expression whose operators all bind at least as tightly as `min_bp`.
    pub fn expr_bp(&mut self, min_bp: u8) -> (r: Result<Expr, Vec<char>>)
        requires
            old(self).wf(),
        ensures
            final(self).wf(),
            final(self).measure() <= old(self).measure(),
            r is Ok ==> final(self).measure() < old(self).measure(),
            !starts_expression(old(self).current@) ==> r is Err,
            r is Ok ==> final(self).rest().len() < old(self).rest().len(),
            match expression_of(old(self).rest(), min_bp) {
                Some((e, ts)) => r is Ok && expr_view(r->Ok_0) == e && final(self).rest() == ts,
                None => r is Err,
            },
        decreases old(self).measure(), 1nat,
    {
        let mut lhs = self.parse_prefix()?;
        loop
            invariant
                self.wf(),
                self.measure() < old(self).measure(),
                self.rest().len() < old(self).rest().len(),
                expression_of(old(self).rest(), min_bp) == operators_of(self.rest(), expr_view(lhs), min_bp),
            ensures
                self.wf(),
                self.measure() < old(self).measure(),
                self.rest().len() < old(self).rest().len(),
                expression_of(old(self).rest(), min_bp) == Some((expr_view(lhs), self.rest())),
            decreases self.measure(),
        {
            let (op_str, op_char, is_logic) = match &self.current {
                Token::Keyword(k) => {
                    if is_word(k, "and") || is_word(k, "or") {
                        (copy_chars(k), ' ', true)
                    } else {
                        break;
                    }
                },
                Token::Op(c) => {
                    let mut s: Vec<char> = Vec::new();
                    s.push(*c);
                    (s, *c, false)
                },
                Token::Cmp(s) => (copy_chars(s), ' ', false),
                _ => {
                    break;
                },
            };
            if op_str.len() == 2 && op_str[1] == '=' && is_arith_op(op_str[0]) {
                if 2 < min_bp {
                    break;
                }
                self.advance();
                let rhs = self.expr_bp(1)?;
                let var_name = match &lhs {
                    Expr::Var(id) => copy_chars(id),
                    _ => {
                        let mut m = chars_of("Left-hand side of compound assignment '");
                        push_all(&mut m, &op_str);
                        push_str(&mut m, "' must be a variable");
                        return Err(m);
                    },
                };
                lhs = desugar_compound(&var_name, op_str[0], rhs);
                continue;
            }
            match binding_power(&op_str) {
                Some((l_bp, r_bp, is_cmp)) => {
                    if l_bp < min_bp {
                        break;
                    }
                    self.advance();
                    let rhs = self.expr_bp(r_bp)?;
                    if is_cmp {
                        lhs = Expr::Cmp(Box::new(lhs), op_str, Box::new(rhs));
                    } else if is_logic {
                        lhs = Expr::Logic(Box::new(lhs), op_str, Box::new(rhs));
                    } else {
                        lhs = Expr::Infix(Box::new(lhs), op_char, Box::new(rhs));
                    }
                },
                None => {
                    break;
                },
            }
        }
        Ok(lhs)
    }
}

/// Whether `c` is one of the arithmetic operators `+ - * / % ^`.
pub fn is_arith_op(c: char) -> (r: bool)
    ensures
        r == (c == '+' || c == '-' || c == '*' || c == '/' || c == '%' || c == '^'),
{
    c == '+' || c == '-' || c == '*' || c == '/' || c == '%' || c == '^'
}

/// Parses a whole source text: exactly the statements that
/// [`program_of`] reads from its tokens, or an error where it reads none.
pub fn parse_program(source: &str) -> (r: Result<Vec<Statement>, Vec<char>>)
    ensures
        r is Ok ==> defs_at_top_only(r->Ok_0@),
        match program_of(tokens_from(source@, 0), Seq::empty()) {
            Some(p) => r is Ok && stmts_view(r->Ok_0@) == p,
            None => r is Err,
        },
{
    let mut parser = Parser::new(source);
    parser.parse()
}

} // verus!
