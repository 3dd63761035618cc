use num_bigint::BigInt;
use num_traits::ToPrimitive;
use tinyscript::interp::eval_num;
use tinyscript::interp::run_program;
use tinyscript::interp::run_statements;
use tinyscript::Origin;
use tinyscript::lexer::Lexer;
use tinyscript::lexer::Token;
use tinyscript::parser::binding_power;
use tinyscript::parser::parse_program;
use tinyscript::parser::prefix_binding_power;
use tinyscript::FloatArith;
use tinyscript::Integer;
use tinyscript::Statement;
use tinyscript::Value;

struct HostFloats;

impl FloatArith for HostFloats {
    fn parse_float(&self, text: &Vec<char>) -> Option<u64> {
        text.iter().collect::<String>().parse::<f64>().ok().map(f64::to_bits)
    }

    fn from_integer(&self, n: &Integer) -> Option<u64> {
        BigInt::from_signed_bytes_le(&n.bytes).to_f64().map(f64::to_bits)
    }

    fn apply(&self, op: char, a: u64, b: u64) -> u64 {
        let (x, y) = (f64::from_bits(a), f64::from_bits(b));
        let r = match op {
            '+' => x + y,
            '-' => x - y,
            '*' => x * y,
            '/' => x / y,
            '%' => x % y,
            '^' => x.powf(y),
            _ => f64::NAN,
        };
        r.to_bits()
    }

    fn render(&self, a: u64) -> Vec<char> {
        let mut text = format!("{}", f64::from_bits(a));
        let digits = text.strip_prefix('-').unwrap_or(&text);
        if !digits.is_empty() && digits.chars().all(|c| c.is_ascii_digit()) {
            text.push_str(".0");
        }
        text.chars().collect()
    }
}

fn text(v: &[char]) -> String {
    v.iter().collect()
}

/// The printed lines of a program, and the error that stopped it, if any.
fn run(src: &str) -> (Vec<String>, Option<String>) {
    match run_program(&HostFloats, src, 400) {
        Ok(records) => {
            let mut lines = Vec::new();
            let mut error = None;
            for r in records {
                for e in r.emitted {
                    lines.push(text(&e.text));
                }
                if let Err(e) = r.result {
                    error = Some(text(&e));
                }
            }
            (lines, error)
        }
        Err(e) => (Vec::new(), Some(format!("parse: {}", text(&e)))),
    }
}

fn printed(src: &str) -> Vec<String> {
    let (lines, error) = run(src);
    assert!(error.is_none(), "unexpected error: {:?}", error);
    lines
}

fn fails(src: &str) -> String {
    let (_, error) = run(src);
    error.expect("expected an error")
}

fn chars(s: &str) -> Vec<char> {
    s.chars().collect()
}

#[test]
fn print_hello() {
    assert_eq!(printed("print(\"hello\")"), vec!["hello"]);
}

#[test]
fn power_of_variables() {
    assert_eq!(printed("x = 2 y = 3 print(\"{}\", x ^ y)"), vec!["8"]);
}

#[test]
fn recursive_factorial() {
    let src = "fn fact(n) [ if (n <= 1) [ return 1 ] return n * fact(n - 1) ] print(\"{}\", fact(20))";
    assert_eq!(printed(src), vec!["2432902008176640000"]);
}

#[test]
fn loose_and_strict_equality() {
    let src = "print(\"{}\", 1 == 1.0)\nprint(\"{}\", 1 === 1.0)";
    assert_eq!(printed(src), vec!["true", "false"]);
}

#[test]
fn compound_assignments() {
    assert_eq!(printed("a = 10 a += 5 a *= 2 print(\"{}\", a)"), vec!["30"]);
}

#[test]
fn if_else_returns() {
    let src = "fn f(x) [ if (x > 0) [ return \"pos\" ] else [ return \"nonpos\" ] ] print(\"{}\", f(-3))";
    assert_eq!(printed(src), vec!["nonpos"]);
}

#[test]
fn lexer_reaches_eof_on_any_input() {
    for src in ["", "   ; only a comment", "\"unterminated", "'a\\", "@#$ 1.2.3 ===!==", "x\u{3000}y"] {
        let tokens = Lexer::tokenize(src);
        assert!(matches!(tokens.last(), Some(Token::Eof)));
        assert_eq!(tokens.iter().filter(|t| matches!(t, Token::Eof)).count(), 1);
        assert_eq!(tokens.len(), Lexer::tokenize(src).len());
    }
    let mut lexer = Lexer::new("x");
    assert!(matches!(lexer.next_token(), Token::Ident(_)));
    assert!(matches!(lexer.next_token(), Token::Eof));
    assert!(matches!(lexer.next_token(), Token::Eof));
}

#[test]
fn lexer_maximal_munch_and_escapes() {
    let tokens = Lexer::tokenize("a === b !== c <= d += 1 ; note\n'x\\ty\\q' 1.5 2. fn");
    let kinds: Vec<String> = tokens
        .iter()
        .map(|t| match t {
            Token::Ident(s) => format!("I:{}", text(s)),
            Token::Keyword(s) => format!("K:{}", text(s)),
            Token::Number(s) => format!("N:{}", text(s)),
            Token::StringLiteral(s) => format!("S:{}", text(s)),
            Token::Op(c) => format!("O:{}", c),
            Token::Cmp(s) => format!("C:{}", text(s)),
            Token::Eof => "EOF".to_string(),
        })
        .collect();
    assert_eq!(
        kinds,
        vec![
            "I:a", "C:===", "I:b", "C:!==", "I:c", "C:<=", "I:d", "C:+=", "N:1", "S:x\tyq", "N:1.5",
            "N:2", "O:.", "K:fn", "EOF"
        ]
    );
}

#[test]
fn integer_display_round_trips() {
    let (lines, _) = run("print(\"{}\", 99999999999999999999 * 99999999999999999999)");
    assert_eq!(lines, vec!["9999999999999999999800000000000000000001"]);
    let again = eval_num(&HostFloats, &chars(&lines[0])).unwrap();
    match &again {
        Value::Integer(n) => {
            assert_eq!(BigInt::from_signed_bytes_le(&n.bytes).to_string(), lines[0]);
        }
        _ => panic!("not an integer"),
    }
    let negative = eval_num(&HostFloats, &chars("-42")).unwrap();
    match negative {
        Value::Integer(n) => assert_eq!(BigInt::from_signed_bytes_le(&n.bytes), BigInt::from(-42)),
        _ => panic!("not an integer"),
    }
}

#[test]
fn same_variant_arithmetic() {
    assert_eq!(printed("print(\"{}\", 7 / -2)"), vec!["-3"]);
    assert_eq!(printed("print(\"{}\", -7 % 2)"), vec!["-1"]);
    assert_eq!(printed("print(\"{}\", 7 - 10)"), vec!["-3"]);
    assert_eq!(printed("print(\"{}\", 1.5 + 2.25)"), vec!["3.75"]);
    assert_eq!(printed("print(\"{}\", 0.5 * 3)"), vec!["1.5"]);
    assert_eq!(printed("print(\"{}\", 7.5 % 2)"), vec!["1.5"]);
    assert_eq!(printed("print(\"{}\", 'ab' + \"cd\")"), vec!["abcd"]);
}

#[test]
fn strict_equality_implies_loose() {
    for (a, b) in [("1", "1"), ("2.5", "2.5"), ("'s'", "'s'"), ("(1 == 1)", "(2 == 2)")] {
        let src = format!("print(\"{{}} {{}}\", {a} === {b}, {a} == {b})");
        assert_eq!(printed(&src), vec!["true true"], "{}", src);
    }
    assert_eq!(printed("print(\"{} {}\", 2 === 2.0, 2 == 2.0)"), vec!["false true"]);
    assert_eq!(printed("print(\"{} {}\", '1' == 1, 1 != 1.5)"), vec!["false true"]);
}

#[test]
fn logical_operators_short_circuit() {
    assert_eq!(printed("print(\"{}\", (1 == 2) and missing())"), vec!["false"]);
    assert_eq!(printed("print(\"{}\", (1 == 1) or missing())"), vec!["true"]);
    assert_eq!(printed("print(\"{}\", (1 == 1) and (2 == 2))"), vec!["true"]);
    assert!(fails("print(\"{}\", (1 == 1) and missing())").contains("not defined"));
    assert!(fails("print(\"{}\", 1 and (1 == 1))").contains("Booleans"));
}

#[test]
fn function_calls_leave_caller_variables_alone() {
    let src = "x = 1 fn f(y) [ x = 100 return y + x ] z = f(5) print(\"{} {}\", x, z)";
    assert_eq!(printed(src), vec!["1 105"]);
    assert!(fails("x = 1 fn g() [ return x ] g()").contains("uninitialized variable: x"));
}

#[test]
fn compound_matches_plain_assignment() {
    for op in ["+", "-", "*", "/", "%", "^"] {
        let a = printed(&format!("x = 7 y = (x {op}= 3) print(\"{{}} {{}}\", x, y)"));
        let b = printed(&format!("x = 7 y = (x = x {op} 3) print(\"{{}} {{}}\", x, y)"));
        assert_eq!(a, b);
    }
    assert!(fails("1 += 2").contains("must be a variable"));
}

#[test]
fn numeric_literal_variant_follows_dot() {
    assert!(matches!(eval_num(&HostFloats, &chars("1")), Ok(Value::Integer(_))));
    assert!(matches!(eval_num(&HostFloats, &chars("1.0")), Ok(Value::Float(_))));
    assert_eq!(printed("print(1.0 === 1.0) print(1 === 1)"), vec!["true", "true"]);
}

#[test]
fn redefinition_replaces() {
    let src = "fn f() [ return 1 ] print(\"{}\", f()) fn f() [ return 2 ] print(\"{}\", f())";
    assert_eq!(printed(src), vec!["1", "2"]);
}

#[test]
fn big_integers_do_not_overflow() {
    assert_eq!(printed("print(\"{}\", 2 ^ 100)"), vec!["1267650600228229401496703205376"]);
    assert_eq!(
        printed("print(\"{}\", 9223372036854775807 + 1)"),
        vec!["9223372036854775808"]
    );
}

#[test]
fn zero_exponent_is_one() {
    assert_eq!(printed("print(\"{} {}\", 5 ^ 0, 5 ^ 0 === 1)"), vec!["1 true"]);
    assert_eq!(printed("print(\"{} {}\", 2.5 ^ 0, 2.5 ^ 0 === 1.0)"), vec!["1.0 true"]);
    assert!(fails("print(2 ^ -1)").contains("exponent"));
}

#[test]
fn division_by_zero_raises() {
    assert!(fails("print(1 / 0)").contains("Division by zero"));
    assert!(fails("print(1 % 0)").contains("Modulo by zero"));
    assert!(fails("print(1.5 / 0)").contains("Division by zero"));
    assert!(fails("print(1.5 % 0.0)").contains("Modulo by zero"));
    assert!(fails("print(1 / 0.0)").contains("Division by zero"));
}

#[test]
fn empty_function_yields_void() {
    assert_eq!(printed("fn f() [ ] print(f())"), vec!["void"]);
    assert_eq!(printed("fn f() [ ] print(\"{}\", f())"), vec!["void"]);
}

#[test]
fn empty_then_without_else_prints_nothing() {
    assert_eq!(printed("if (1 == 2) [ ]"), Vec::<String>::new());
    assert_eq!(printed("fn f() [ if (1 == 2) [ ] ] print(f())"), vec!["void"]);
}

#[test]
fn precedence_and_associativity() {
    assert_eq!(printed("print(1 + 2 * 3)"), vec!["7"]);
    assert_eq!(printed("print(2 ^ 3 ^ 2)"), vec!["64"]);
    assert_eq!(printed("print(10 - 3 - 2)"), vec!["5"]);
    assert_eq!(printed("a = b = 3 print(\"{} {}\", a, b)"), vec!["3 3"]);
    assert_eq!(printed("print(-2 ^ 2)"), vec!["-4"]);
    assert_eq!(printed("print(1 < 2 and 2 < 3 or 1 == 0)"), vec!["true"]);
}

#[test]
fn print_forms() {
    assert_eq!(printed("print(\"a {} b {} c\", 1, 'x')"), vec!["a 1 b x c"]);
    assert_eq!(printed("print(\"{} {}\", 1)"), vec!["1 {}"]);
    assert_eq!(printed("print(\"{}\", '{}')"), vec!["{}"]);
    assert_eq!(printed("print(1 == 1)"), vec!["true"]);
    assert!(fails("print(\"{}\", 1, 2)").contains("Not enough placeholders"));
    assert!(fails("print(1, 2)").starts_with("parse"));
}

#[test]
fn prints_inside_functions_come_in_order() {
    let src = "fn f() [ print('a') if (1 == 1) [ print('b') ] print('c') return 0 ] f() print('d')";
    assert_eq!(printed(src), vec!["a", "b", "c", "d"]);
}

#[test]
fn parse_errors() {
    assert!(fails("def f() [ ]").contains("deprecated"));
    assert!(fails("else [ ]").contains("else"));
    assert!(fails("= 3").contains("cannot start a statement"));
    assert!(fails("if (1 == 1) [ fn g() [ ] ]").contains("top level"));
    assert!(fails("if (1 == 1) [ print(1) ").contains("Unclosed block"));
    assert!(fails("print(").starts_with("parse"));
}

#[test]
fn runtime_errors() {
    assert!(fails("print(y)").contains("uninitialized variable: y"));
    assert!(fails("fn f() [ fn g() [ ] ] f()").contains("top level"));
    assert!(fails("fn f(a) [ ] f()").contains("arguments"));
    assert!(fails("nope()").contains("not defined"));
    assert!(fails("if (1) [ ]").contains("Boolean"));
    assert!(fails("print(1 < 'a')").contains("ordering"));
    assert!(fails("print(-'a')").contains("Unary minus"));
    assert!(fails("print(true + 1)").contains("uninitialized"));
    let m = fails("x = 'a' - 'b'");
    assert!(m.contains("Incompatible"), "{}", m);
    assert!(fails("fn f() [ return 1 / 0 ] f()").contains("Function 'f' Execution Error (Stmt 1)"));
}

#[test]
fn runtime_error_stops_the_program() {
    let (lines, error) = run("print(1) print(1 / 0) print(2)");
    assert_eq!(lines, vec!["1"]);
    assert!(error.unwrap().contains("Division by zero"));
}

#[test]
fn deep_recursion_is_reported() {
    assert!(fails("fn f(n) [ return f(n + 1) ] f(0)").contains("depth"));
}

#[test]
fn string_ordering_and_comparisons() {
    assert_eq!(printed("print(\"{} {} {}\", 'abc' < 'abd', 'b' > 'abc', 'a' <= 'a')"), vec!["true true true"]);
    assert_eq!(printed("print(\"{} {}\", 2.5 >= 3.5, 3.5 >= 2.5)"), vec!["false true"]);
    assert_eq!(printed("print(\"{} {}\", 0.0 == -0.0, 0.0 === -0.0)"), vec!["true true"]);
}

#[test]
fn top_level_if_runs_branches() {
    assert_eq!(printed("x = 3 if (x > 2) [ print('big') ] else [ print('small') ]"), vec!["big"]);
    assert_eq!(printed("x = 1 if (x > 2) [ print('big') ] else [ print('small') ]"), vec!["small"]);
}

#[test]
fn expression_statement_result_is_display_form() {
    let records = run_program(&HostFloats, "'a' 1 x = 2", 100).unwrap();
    let results: Vec<String> = records.iter().map(|r| text(r.result.as_ref().unwrap())).collect();
    assert_eq!(results, vec!["\"a\"", "1", "2"]);
}

#[test]
fn parsed_program_shape() {
    let program = parse_program("fn f(a, b) [ return a ] print(f(1, 2))").unwrap();
    assert_eq!(program.len(), 2);
    assert!(matches!(&program[0], Statement::Def(_, params, body) if params.len() == 2 && body.len() == 1));
    assert!(matches!(&program[1], Statement::Print(None, args) if args.len() == 1));
}

#[test]
fn unicode_letters_and_spaces() {
    let tokens = Lexer::tokenize("x\u{3000}y");
    assert_eq!(tokens.len(), 3);
    assert_eq!(printed("é1 = 4 print(é1 * 2)"), vec!["8"]);
    assert_eq!(printed("_a_1 = 'k' print(_a_1)"), vec!["k"]);
}

#[test]
fn rendered_expressions() {
    let program = parse_program("x = -a + f(1, 'two') * 3 == b and c").unwrap();
    match &program[0] {
        Statement::Expr(e) => {
            assert_eq!(text(&e.render()), "(x = ((((- a) + (f(1, \"two\") * 3)) == b) and c))");
        }
        _ => panic!("not an expression"),
    }
}

#[test]
fn binding_powers() {
    assert_eq!(binding_power(&chars("=")), Some((2, 1, false)));
    assert_eq!(binding_power(&chars("or")), Some((3, 4, false)));
    assert_eq!(binding_power(&chars("and")), Some((5, 6, false)));
    assert_eq!(binding_power(&chars("!==")), Some((7, 8, true)));
    assert_eq!(binding_power(&chars("-")), Some((9, 10, false)));
    assert_eq!(binding_power(&chars("%")), Some((11, 12, false)));
    assert_eq!(binding_power(&chars("^")), Some((13, 14, false)));
    assert_eq!(binding_power(&chars("(")), None);
    assert_eq!(prefix_binding_power('-').1, 10);
    assert_eq!(prefix_binding_power('*').1, 0);
}

#[test]
fn return_without_value_yields_void() {
    assert_eq!(printed("fn f() [ return ] print(f())"), vec!["void"]);
    assert_eq!(printed("fn f() [ 1 + 1 ] print(f())"), vec!["2"]);
    assert_eq!(printed("return 5 print('after')"), vec!["after"]);
}

#[test]
fn nested_blocks_propagate_return() {
    let src = "fn f(n) [ if (n > 0) [ if (n > 5) [ return 'big' ] return 'small' ] return 'none' ] print(\"{} {} {}\", f(9), f(2), f(0))";
    assert_eq!(printed(src), vec!["big small none"]);
}

#[test]
fn emissions_carry_their_origin() {
    let src = "fn f() [ print('a') if (1 == 1) [ print('b') ] ] f() print('c')";
    let records = run_program(&HostFloats, src, 400).unwrap();
    let origins: Vec<String> = records
        .iter()
        .flat_map(|r| r.emitted.iter())
        .map(|e| match e.origin {
            Origin::TopLevel => "top".to_string(),
            Origin::FunctionBody(n) => format!("stmt {}", n),
            Origin::Block => "block".to_string(),
        })
        .collect();
    assert_eq!(origins, vec!["stmt 1", "block", "top"]);
}

#[test]
fn run_statements_stops_at_first_error() {
    let program = parse_program("print(1) x = y print(2)").unwrap();
    let records = run_statements(&HostFloats, program, 400);
    assert_eq!(records.len(), 2);
    assert!(records[0].result.is_ok());
    assert!(records[1].result.is_err());
}

#[test]
fn if_block_value_is_void() {
    assert_eq!(printed("fn f() [ if (1 == 1) [ 5 ] ] print(f())"), vec!["void"]);
    assert_eq!(printed("fn f() [ if (1 == 1) [ 5 ] else [ 6 ] 7 ] print(f())"), vec!["7"]);
}

#[test]
fn negative_divisors_truncate() {
    assert_eq!(printed("print(\"{} {} {} {}\", 7 / -2, -7 / -2, 7 % -2, -7 % -2)"), vec!["-3 3 1 -1"]);
}

#[test]
fn float_display_keeps_its_variant() {
    assert_eq!(printed("print(1.0) print(2.5 * 2) print(1 + 0.5)"), vec!["1.0", "5.0", "1.5"]);
    assert_eq!(printed("x = 3.0 print(\"{}\", x)"), vec!["3.0"]);
}

#[test]
fn too_many_arguments_even_with_floats() {
    assert!(fails("print(\"{}\", 1.5, 2.5)").contains("Not enough placeholders"));
    assert!(fails("print(\"none\", 1.5)").contains("Not enough placeholders"));
}

#[test]
fn error_messages_carry_details() {
    assert!(fails("fn f(a) [ ] f()").contains("expects 1 arguments, but received 0"));
    assert!(fails("if (1) [ ]").contains("found 1"));
    assert!(fails("fn f() [ 1 2 x ] f()").contains("Function 'f' Execution Error (Stmt 3): "));
}

#[test]
fn non_boolean_conditions_fail_even_with_floats() {
    assert!(fails("if (1.5) [ ]").contains("Boolean"));
    assert!(fails("fn f() [ if (2.5 * 2) [ return 1 ] ] f()").contains("Boolean"));
    assert!(fails("if ('s') [ ]").contains("Boolean"));
}

#[test]
fn strict_equality_across_literal_variants() {
    assert_eq!(printed("print(\"{} {} {}\", 1 === 1.0, 1 !== 1.0, 'a' === 1)"), vec!["false true false"]);
}
