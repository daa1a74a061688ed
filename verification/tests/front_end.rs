use nosharp::commands::{lower_expr, lower_program, lower_stmt, op_to_string, Command, CsExpr, Value};
use nosharp::eval::GlobalFunction;
use nosharp::lexer::lex_source;
use nosharp::parser::parser;
use nosharp::report::{can_render, render_diagnostic};
use nosharp::syntax::{Expr, Op, Stmt};
use nosharp::text::{concat3, i32_to_decimal, usize_to_decimal};
use nosharp::{
    analyze, can_analyze, invalid_globals_result, invalid_globals_text_result,
    invalid_source_result,
};

fn program(src: &str) -> Vec<Stmt> {
    let (t, errors) = lex_source(src);
    assert!(errors.is_empty());
    parser(&t).expect("the program parses")
}

fn lowered(src: &str) -> String {
    format!("{:?}", lower_program(&program(src)))
}

#[test]
fn operators_as_the_host_reads_them() {
    let all = [
        (Op::Add, "+"),
        (Op::Sub, "-"),
        (Op::Mul, "*"),
        (Op::Div, "/"),
        (Op::Equal, "=="),
        (Op::NotEqual, "!="),
        (Op::LessOrEqual, "<="),
        (Op::MoreOrEqual, ">="),
        (Op::LessThan, "<"),
        (Op::MoreThan, ">"),
        (Op::Concat, ".."),
        (Op::And, "and"),
        (Op::Or, "or"),
        (Op::Not, "not"),
    ];
    for (op, text) in all {
        assert_eq!(op_to_string(&op), text);
    }
}

#[test]
fn lower_literals_and_names() {
    assert!(matches!(lower_expr(&Expr::Int(3)), CsExpr::Literal { value: Value::Int(3) }));
    assert!(matches!(lower_expr(&Expr::Bool(false)), CsExpr::Literal { value: Value::Bool(false) }));
    match lower_expr(&Expr::Float("2.25".to_string())) {
        CsExpr::Literal { value: Value::Float(f) } => assert_eq!(f, "2.25"),
        other => panic!("unexpected {:?}", other),
    }
    match lower_expr(&Expr::Var("v".to_string())) {
        CsExpr::Variable { name } => assert_eq!(name, "v"),
        other => panic!("unexpected {:?}", other),
    }
}

#[test]
fn lower_call_statement() {
    assert_eq!(
        lowered("print(1, \"a\")"),
        "[CallFunction { name: \"print\", args: [Literal { value: Int(1) }, Literal { value: String(\"a\") }] }]"
    );
}

#[test]
fn lower_call_of_a_call_has_no_name() {
    assert_eq!(
        lowered("f(1)(2)"),
        "[CallFunction { name: \"unknown\", args: [Literal { value: Int(2) }] }]"
    );
}

#[test]
fn lower_other_expression_statement() {
    assert_eq!(
        lowered("1 + x"),
        "[ExprStatement { value: BinaryOp { op: \"+\", left: Literal { value: Int(1) }, right: Variable { name: \"x\" } } }]"
    );
}

#[test]
fn lower_declarations() {
    assert_eq!(
        lowered("auto a = not b int c = 1"),
        "[SetVar { name: \"a\", var_type: None, value: UnaryOp { op: \"not\", operand: Variable { name: \"b\" } } }, \
         SetVar { name: \"c\", var_type: Some(\"int\"), value: Literal { value: Int(1) } }]"
    );
    assert_eq!(
        lowered("c = 2"),
        "[AssignVar { name: \"c\", value: Literal { value: Int(2) } }]"
    );
}

#[test]
fn lower_function_if_for_return() {
    let s = lowered("int f(int a) { if a > 0 { return a } else { return } } for int i = 0, 2, 1 { f(i) }");
    assert_eq!(
        s,
        "[DefineFunction { name: \"f\", return_type: \"int\", params: [(\"int\", \"a\")], body: [\
         If { condition: BinaryOp { op: \">\", left: Variable { name: \"a\" }, right: Literal { value: Int(0) } }, \
         then_block: [Return { value: Some(Variable { name: \"a\" }) }], else_block: Some([Return { value: None }]) }] }, \
         For { var_type: \"int\", name: \"i\", start: Literal { value: Int(0) }, end: Literal { value: Int(2) }, \
         step: Literal { value: Int(1) }, body: [CallFunction { name: \"f\", args: [Variable { name: \"i\" }] }] }]"
    );
}

#[test]
fn lower_statement_and_program_agree() {
    let stmts = program("auto a = 1 a = 2");
    let whole = lower_program(&stmts);
    assert_eq!(whole.len(), 2);
    assert_eq!(format!("{:?}", whole[1]), format!("{:?}", lower_stmt(&stmts[1])));
    assert!(matches!(whole[0], Command::SetVar { .. }));
}

#[test]
fn lowering_two_programs_one_after_the_other() {
    let mut both = program("auto a = 1");
    both.extend(program("f(a)"));
    let mut parts = lower_program(&program("auto a = 1"));
    parts.extend(lower_program(&program("f(a)")));
    assert_eq!(format!("{:?}", lower_program(&both)), format!("{:?}", parts));
}

/// How the value of a float literal prints: its `f32` value in `Debug` form.
fn float_debug(text: &str) -> String {
    format!("{:?}", text.parse::<f32>().expect("a float literal"))
}

fn no_globals() -> Vec<(String, Result<GlobalFunction, String>)> {
    vec![]
}

#[test]
fn analyze_clean_program() {
    let r = analyze("auto x = 1 x = x + 1", no_globals(), float_debug);
    assert!(r.success);
    assert_eq!(r.commands.map(|c| c.len()), Some(2));
    assert!(r.errors.is_empty());
}

#[test]
fn analyze_with_host_functions() {
    let globals = vec![(
        "print".to_string(),
        Ok(GlobalFunction { parameters: vec!["string".to_string()], returns: None }),
    )];
    let r = analyze("print(\"hi\")", globals, float_debug);
    assert!(r.success);
}

#[test]
fn analyze_reports_lex_errors_first() {
    let r = analyze("auto x = $ auto y = #", no_globals(), float_debug);
    assert!(!r.success);
    assert!(r.commands.is_none());
    assert_eq!(r.errors.len(), 2);
    assert_eq!(r.errors[0].message, "unknown token");
    assert_eq!((r.errors[0].start, r.errors[0].end), (9, 10));
    assert_eq!((r.errors[1].start, r.errors[1].end), (20, 21));
    assert_eq!(r.errors[0].help.as_deref(), Some("Remove or replace this character."));
    let drawn = r.errors[0].rendered.as_deref().expect("the report is drawn");
    assert!(drawn.contains("lex error"));
    assert!(drawn.contains("this character is not valid No# syntax"));
    assert!(drawn.contains("Remove or replace this character."));
}

#[test]
fn analyze_reports_a_syntax_error() {
    let r = analyze("auto x = ", no_globals(), float_debug);
    assert!(!r.success);
    assert!(r.commands.is_none());
    assert_eq!(r.errors.len(), 1);
    assert_eq!(r.errors[0].message, "unexpected end of file");
    assert_eq!((r.errors[0].start, r.errors[0].end), (3, 3));
    assert!(r.errors[0].rendered.is_some());
}

#[test]
fn analyze_reports_check_errors_with_commands() {
    let r = analyze("int x = true", no_globals(), float_debug);
    assert!(!r.success);
    assert_eq!(r.commands.map(|c| c.len()), Some(1));
    assert_eq!(r.errors.len(), 1);
    assert_eq!(r.errors[0].message, "variable `x` is declared as `int`, but got `bool`");
    assert_eq!((r.errors[0].start, r.errors[0].end), (0, 0));
    assert!(r.errors[0].rendered.is_none());
}

#[test]
fn analyze_success_exactly_without_errors() {
    for src in ["auto a = 1", "a = 1", "auto = ", "auto a = @"] {
        let r = analyze(src, no_globals(), float_debug);
        assert_eq!(r.success, r.errors.is_empty());
    }
}

#[test]
fn reports_that_cannot_be_drawn_are_told_apart() {
    assert!(can_analyze("auto x = 1"));
    assert!(can_analyze("auto x = $"));
    assert!(!can_analyze("("));
    assert!(can_analyze("x = )"));
}

#[test]
fn drawing_a_report() {
    let drawn = render_diagnostic("let x", "oops", 0, 0, "here", Some("try again")).unwrap();
    assert!(drawn.contains("oops"));
    assert!(drawn.contains("here"));
    assert!(drawn.contains("try again"));
    assert!(drawn.contains("main.no"));
}

#[test]
fn drawable_spans() {
    assert!(can_render("abc", 0, 1));
    assert!(can_render("abc", 1, 0));
    assert!(can_render("abc", 2, 3));
    assert!(!can_render("abc", 3, 4));
    assert!(!can_render("abc", 3, 3));
    assert!(!can_render("é", 1, 2));
    assert!(!can_render("éa", 0, 1));
    assert!(can_render("éa", 2, 3));
    assert!(can_render("éab", 2, 3));
    assert!(can_render("ab", 5, 6));
    assert!(!can_render("ab", usize::MAX, usize::MAX));
}

#[test]
fn fixed_failure_answers() {
    let r = invalid_source_result();
    assert!(!r.success && r.commands.is_none());
    assert_eq!(r.errors[0].message, "Invalid UTF-8 string");
    assert_eq!(invalid_globals_text_result().errors[0].message, "Invalid UTF-8 globals JSON");
    let g = invalid_globals_result("expected value at line 1 column 1");
    assert_eq!(g.errors[0].message, "Invalid globals JSON: expected value at line 1 column 1");
    assert_eq!(
        g.errors[0].help.as_deref(),
        Some("Expected an object of global function metadata.")
    );
    assert_eq!((g.errors[0].start, g.errors[0].end), (0, 0));
}

#[test]
fn decimal_text() {
    assert_eq!(usize_to_decimal(0), "0");
    assert_eq!(usize_to_decimal(1207), "1207");
    assert_eq!(i32_to_decimal(-42), "-42");
    assert_eq!(i32_to_decimal(i32::MIN), "-2147483648");
    assert_eq!(concat3("a", "b", "c"), "abc");
}

#[test]
fn analyze_draws_a_report_over_several_lines() {
    let r = analyze("x = 1\ny = \"abc\ndef", no_globals(), float_debug);
    assert_eq!(r.errors.len(), 1);
    assert_eq!((r.errors[0].start, r.errors[0].end), (10, 18));
    assert!(r.errors[0].rendered.is_some());
}

#[test]
fn analyze_draws_every_report_it_is_allowed_to() {
    let sources = [
        "",
        "(",
        "((",
        "é(",
        "(é",
        "auto é = 1",
        "x = )\r\n",
        "int f(\n",
        "😀 = 1",
        "a\r\nb = (",
        "\"unterminated\r\nline",
        "if x { ",
        "for int i = 0, 1 { }",
        "auto a = 1 a = ",
        "\t\t)",
        "ab(",
        "abcdef )",
    ];
    for src in sources {
        if can_analyze(src) {
            let r = analyze(src, no_globals(), float_debug);
            assert_eq!(r.success, r.errors.is_empty());
        }
    }
}

#[test]
fn analyze_shows_an_unexpected_float_by_its_value() {
    let r = analyze("auto x = 2 3.250", no_globals(), float_debug);
    assert_eq!(r.errors.len(), 0);
    let r = analyze("auto 3.250", no_globals(), float_debug);
    assert_eq!(r.errors[0].message, "unexpected Float(3.25)");
    assert!(r.errors[0].rendered.is_some());
}

#[test]
fn copies_of_programs_and_commands_are_equal() {
    let stmts = program("int f(int a) { if a > 0 { return a } else { return } } for int i = 0, 2, 1 { f(i) }");
    let copy = stmts.clone();
    assert_eq!(copy, stmts);
    let commands = lower_program(&stmts);
    assert_eq!(format!("{:?}", commands.clone()), format!("{:?}", commands));
    let e = Expr::Call { callee: Box::new(Expr::Var("g".to_string())), args: vec![Expr::Int(1)] };
    assert_eq!(e.clone(), e);
}

#[test]
fn drawing_holds_title_label_and_help() {
    let drawn = render_diagnostic("auto x = $\n", "lex error", 9, 10, "not valid here", Some("Remove it.")).unwrap();
    assert!(drawn.contains("lex error"));
    assert!(drawn.contains("not valid here"));
    assert!(drawn.contains("Remove it."));
}
