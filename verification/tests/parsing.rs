use nosharp::lexer::lex_source;
use nosharp::parser::{parse_code, parser, token_debug_x};
use nosharp::syntax::{Expr, Op, Stmt, Token};

fn tokens(src: &str) -> Vec<Token> {
    let (t, errors) = lex_source(src);
    assert!(errors.is_empty());
    t
}

fn parse(src: &str) -> Vec<Stmt> {
    parser(&tokens(src)).expect("the program parses")
}

/// How the value of a float literal prints: its `f32` value in `Debug` form.
fn float_debug(text: &str) -> String {
    format!("{:?}", text.parse::<f32>().expect("a float literal"))
}

fn var(s: &str) -> Expr {
    Expr::Var(s.to_string())
}

fn bin(op: Op, l: Expr, r: Expr) -> Expr {
    Expr::Binary { op, left: Box::new(l), right: Box::new(r) }
}

#[test]
fn parse_typed_let() {
    assert_eq!(
        parse("int x = 5"),
        vec![Stmt::Let { var_type: Some("int".to_string()), name: "x".to_string(), value: Expr::Int(5) }]
    );
}

#[test]
fn parse_custom_typed_let() {
    assert_eq!(
        parse("Point p = q"),
        vec![Stmt::Let { var_type: Some("Point".to_string()), name: "p".to_string(), value: var("q") }]
    );
}

#[test]
fn parse_auto_let_and_assign() {
    assert_eq!(
        parse("auto y = 1.5 y = \"s\""),
        vec![
            Stmt::Let { var_type: None, name: "y".to_string(), value: Expr::Float("1.5".to_string()) },
            Stmt::Assign { name: "y".to_string(), value: Expr::String("s".to_string()) },
        ]
    );
}

#[test]
fn parse_arithmetic_groups_from_the_left_without_precedence() {
    assert_eq!(
        parse("1 + 2 * 3"),
        vec![Stmt::Expr(bin(Op::Mul, bin(Op::Add, Expr::Int(1), Expr::Int(2)), Expr::Int(3)))]
    );
}

#[test]
fn parse_comparison_binds_looser_than_arithmetic() {
    assert_eq!(
        parse("a + 1 == b .. c"),
        vec![Stmt::Expr(bin(
            Op::Concat,
            bin(Op::Equal, bin(Op::Add, var("a"), Expr::Int(1)), var("b")),
            var("c")
        ))]
    );
}

#[test]
fn parse_not_takes_a_whole_comparison() {
    assert_eq!(
        parse("auto t = not a == b"),
        vec![Stmt::Let {
            var_type: None,
            name: "t".to_string(),
            value: Expr::Unary { op: Op::Not, operand: Box::new(bin(Op::Equal, var("a"), var("b"))) },
        }]
    );
}

#[test]
fn parse_logic_groups_from_the_left() {
    assert_eq!(
        parse("a and b or true"),
        vec![Stmt::Expr(bin(Op::Or, bin(Op::And, var("a"), var("b")), Expr::Bool(true)))]
    );
}

#[test]
fn parse_not_between_operands_is_a_binary_operator() {
    assert_eq!(parse("a not b"), vec![Stmt::Expr(bin(Op::Not, var("a"), var("b")))]);
}

#[test]
fn parse_calls() {
    assert_eq!(
        parse("f(1, x) g()"),
        vec![
            Stmt::Expr(Expr::Call { callee: Box::new(var("f")), args: vec![Expr::Int(1), var("x")] }),
            Stmt::Expr(Expr::Call { callee: Box::new(var("g")), args: vec![] }),
        ]
    );
}

#[test]
fn parse_chained_calls() {
    assert_eq!(
        parse("f(1)(2)"),
        vec![Stmt::Expr(Expr::Call {
            callee: Box::new(Expr::Call { callee: Box::new(var("f")), args: vec![Expr::Int(1)] }),
            args: vec![Expr::Int(2)],
        })]
    );
}

#[test]
fn parse_parenthesized_expression() {
    assert_eq!(
        parse("2 * (3 - 1)"),
        vec![Stmt::Expr(bin(Op::Mul, Expr::Int(2), bin(Op::Sub, Expr::Int(3), Expr::Int(1))))]
    );
}

#[test]
fn parse_function() {
    assert_eq!(
        parse("int add(int a, int b) { return a + b }"),
        vec![Stmt::Function {
            return_type: "int".to_string(),
            name: "add".to_string(),
            params: vec![
                ("int".to_string(), "a".to_string()),
                ("int".to_string(), "b".to_string()),
            ],
            body: vec![Stmt::Return(Some(bin(Op::Add, var("a"), var("b"))))],
        }]
    );
}

#[test]
fn parse_function_without_parameters() {
    assert_eq!(
        parse("void main() { return }"),
        vec![Stmt::Function {
            return_type: "void".to_string(),
            name: "main".to_string(),
            params: vec![],
            body: vec![Stmt::Return(None)],
        }]
    );
}

#[test]
fn parse_if_elseif_else_nests_the_branches() {
    assert_eq!(
        parse("if a { x = 1 } elseif b { x = 2 } elseif c { } else { x = 3 }"),
        vec![Stmt::If {
            condition: var("a"),
            then_block: vec![Stmt::Assign { name: "x".to_string(), value: Expr::Int(1) }],
            else_block: Some(vec![Stmt::If {
                condition: var("b"),
                then_block: vec![Stmt::Assign { name: "x".to_string(), value: Expr::Int(2) }],
                else_block: Some(vec![Stmt::If {
                    condition: var("c"),
                    then_block: vec![],
                    else_block: Some(vec![Stmt::Assign {
                        name: "x".to_string(),
                        value: Expr::Int(3),
                    }]),
                }]),
            }]),
        }]
    );
}

#[test]
fn parse_if_without_else() {
    assert_eq!(
        parse("if true { }"),
        vec![Stmt::If { condition: Expr::Bool(true), then_block: vec![], else_block: None }]
    );
}

#[test]
fn parse_for_loop() {
    assert_eq!(
        parse("for int i = 0, 10, 1 { f(i) }"),
        vec![Stmt::For {
            var_type: "int".to_string(),
            name: "i".to_string(),
            start: Expr::Int(0),
            end: Expr::Int(10),
            step: Expr::Int(1),
            body: vec![Stmt::Expr(Expr::Call { callee: Box::new(var("f")), args: vec![var("i")] })],
        }]
    );
}

#[test]
fn parse_empty_program() {
    assert_eq!(parse(""), vec![]);
}

#[test]
fn parse_error_at_end_of_input() {
    assert_eq!(parser(&tokens("int x =")), Err(3));
}

#[test]
fn parse_error_at_furthest_failure() {
    assert_eq!(parser(&tokens("x = )")), Err(2));
}

#[test]
fn parse_error_trailing_comma_in_arguments() {
    assert_eq!(parser(&tokens("f(1,)")), Err(4));
}

#[test]
fn parse_code_reports_end_of_file() {
    let src = "int x = ";
    let errors = parse_code(&tokens(src), src, float_debug).unwrap_err();
    assert_eq!(errors.len(), 1);
    assert_eq!(errors[0].message, "unexpected end of file");
    assert_eq!((errors[0].start, errors[0].end), (3, 3));
    assert_eq!(errors[0].help, None);
    assert!(errors[0].rendered.as_deref().unwrap_or("").contains("syntax error"));
}

#[test]
fn parse_code_reports_the_unexpected_token() {
    let src = "x = )";
    let errors = parse_code(&tokens(src), src, float_debug).unwrap_err();
    assert_eq!(errors[0].message, "unexpected RParen");
    assert_eq!((errors[0].start, errors[0].end), (2, 3));
}

#[test]
fn parse_code_quotes_an_unexpected_name() {
    let src = "f(1 y)";
    let errors = parse_code(&tokens(src), src, float_debug).unwrap_err();
    assert_eq!(errors[0].message, "unexpected Ident(\"y\")");
    assert_eq!((errors[0].start, errors[0].end), (3, 4));
}

#[test]
fn parse_code_shows_an_unexpected_number() {
    let src = "auto 5";
    let errors = parse_code(&tokens(src), src, float_debug).unwrap_err();
    assert_eq!(errors[0].message, "unexpected Int(5)");
}

#[test]
fn parse_code_passes_statements_through() {
    let src = "auto a = 1";
    assert_eq!(parse_code(&tokens(src), src, float_debug).unwrap().len(), 1);
}

#[test]
fn token_debug_matches_the_variant_names() {
    assert_eq!(token_debug_x(&Token::LBrace, ""), "LBrace");
    assert_eq!(token_debug_x(&Token::Int(-42), ""), "Int(-42)");
    assert_eq!(token_debug_x(&Token::String("a\"b".to_string()), ""), "String(\"a\\\"b\")");
    assert_eq!(token_debug_x(&Token::Float("2.50".to_string()), "2.5"), "Float(2.5)");
    assert_eq!(token_debug_x(&Token::Ident("n".to_string()), ""), "Ident(\"n\")");
}

#[test]
fn parse_code_shows_an_unexpected_float_by_its_value() {
    for (src, shown) in [
        ("int 1.50", "unexpected Float(1.5)"),
        ("int 10000000000000000.0", "unexpected Float(1e16)"),
        ("int 16777217.0", "unexpected Float(16777216.0)"),
        ("int 0.00001", "unexpected Float(1e-5)"),
    ] {
        let errors = parse_code(&tokens(src), src, float_debug).unwrap_err();
        assert_eq!(errors[0].message, shown);
        assert_eq!((errors[0].start, errors[0].end), (1, 2));
        assert!(errors[0].rendered.as_deref().unwrap().contains(shown));
    }
}
