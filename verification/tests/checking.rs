use nosharp::eval::{check_program, Checker, GlobalFunction, TypeInfo};
use nosharp::lexer::lex_source;
use nosharp::parser::parser;
use nosharp::syntax::Stmt;

fn program(src: &str) -> Vec<Stmt> {
    let (t, errors) = lex_source(src);
    assert!(errors.is_empty());
    parser(&t).expect("the program parses")
}

fn global(name: &str, params: &[&str], returns: Option<&str>) -> (String, Result<GlobalFunction, String>) {
    (
        name.to_string(),
        Ok(GlobalFunction {
            parameters: params.iter().map(|p| p.to_string()).collect(),
            returns: returns.map(|r| r.to_string()),
        }),
    )
}

/// The messages and help texts that checking `src` against `globals` reports.
fn report(
    src: &str,
    globals: Vec<(String, Result<GlobalFunction, String>)>,
) -> Vec<(String, Option<String>)> {
    check_program(&program(src), globals)
        .into_iter()
        .map(|d| {
            assert_eq!((d.start, d.end), (0, 0));
            assert!(d.rendered.is_none());
            (d.message, d.help)
        })
        .collect()
}

fn messages(src: &str) -> Vec<String> {
    report(src, vec![]).into_iter().map(|(m, _)| m).collect()
}

#[test]
fn check_clean_program() {
    assert!(messages("int x = 1 auto y = x + 2 float z = y * 1.5 string s = \"a\" .. \"b\"").is_empty());
}

#[test]
fn check_declared_type_mismatch() {
    assert_eq!(
        report("int x = \"a\"", vec![]),
        vec![(
            "variable `x` is declared as `int`, but got `string`".to_string(),
            Some("Change the variable type or assign a matching value.".to_string())
        )]
    );
}

#[test]
fn check_assignment_keeps_the_type() {
    assert_eq!(
        report("auto x = 1 x = true", vec![]),
        vec![(
            "variable `x` is `int`, but got `bool`".to_string(),
            Some("Assignments must keep the same type.".to_string())
        )]
    );
}

#[test]
fn check_assignment_to_unknown_variable() {
    assert_eq!(
        report("y = 1", vec![]),
        vec![(
            "you can't change `y` because it does not exist yet".to_string(),
            Some("Create it first with `auto y = ...` or a typed declaration.".to_string())
        )]
    );
}

#[test]
fn check_unknown_name_and_function() {
    assert_eq!(
        report("print(x)", vec![]),
        vec![
            (
                "couldn't find a variable or function named `x`".to_string(),
                Some("Define `x` before using it.".to_string())
            ),
            (
                "couldn't find a function named `print`".to_string(),
                Some("Declare the function or pass it in the globals JSON.".to_string())
            ),
        ]
    );
}

#[test]
fn check_global_argument_types() {
    assert_eq!(
        report("print(1, \"a\")", vec![global("print", &["string", "string"], None)]),
        vec![("argument 1 for `print` needs `string`, but got `int`".to_string(), None)]
    );
}

#[test]
fn check_argument_count() {
    assert_eq!(
        report("print()", vec![global("print", &["string"], None)]),
        vec![(
            "`print` needs 1 arguments, but got 0".to_string(),
            Some("Pass the exact number of arguments the function declares.".to_string())
        )]
    );
}

#[test]
fn check_global_return_type_defaults_to_void() {
    assert_eq!(
        messages_with("int n = f()", vec![global("f", &[], None)]),
        vec!["variable `n` is declared as `int`, but got `void`".to_string()]
    );
    assert!(messages_with("int n = f()", vec![global("f", &[], Some("int"))]).is_empty());
}

fn messages_with(src: &str, globals: Vec<(String, Result<GlobalFunction, String>)>) -> Vec<String> {
    report(src, globals).into_iter().map(|(m, _)| m).collect()
}

#[test]
fn check_invalid_global_metadata() {
    assert_eq!(
        report("", vec![("g".to_string(), Err("missing field".to_string()))]),
        vec![(
            "global `g` has invalid metadata: missing field".to_string(),
            Some("Expected JSON like { \"parameters\": [\"int\"], \"returns\": \"void\" }".to_string())
        )]
    );
}

#[test]
fn check_return_outside_function() {
    assert_eq!(messages("return 1"), vec!["`return` can only be used inside a function".to_string()]);
}

#[test]
fn check_return_type() {
    assert_eq!(
        report("int f() { return \"a\" }", vec![]),
        vec![(
            "this function promised `int`, but returned `string`".to_string(),
            Some("Change the function return type or return a matching value.".to_string())
        )]
    );
    assert_eq!(
        messages("int f() { return }"),
        vec!["this function promised `int`, but returned `void`".to_string()]
    );
}

#[test]
fn check_if_condition() {
    assert_eq!(
        report("if 1 { }", vec![]),
        vec![(
            "an `if` needs `bool`, but got `int`".to_string(),
            Some("Use a bool value or a comparison like `a == b`.".to_string())
        )]
    );
}

#[test]
fn check_for_bounds() {
    assert_eq!(
        messages("for int i = \"a\", 1.5, true { }"),
        vec![
            "for-loop start must be `int`, but got `string`".to_string(),
            "for-loop end must be `int`, but got `float`".to_string(),
            "for-loop step must be `int`, but got `bool`".to_string(),
        ]
    );
}

#[test]
fn check_loop_variable_is_scoped_to_the_loop() {
    assert_eq!(
        messages("for int i = 0, 3, 1 { i = 2 } i = 1"),
        vec!["you can't change `i` because it does not exist yet".to_string()]
    );
}

#[test]
fn check_operator_types() {
    assert_eq!(
        report("auto z = 1 + \"a\"", vec![]),
        vec![(
            "you can't use `Add` with `int` and `string`".to_string(),
            Some("Use compatible types for this operator.".to_string())
        )]
    );
    assert_eq!(
        messages("auto c = \"a\" < \"b\""),
        vec!["you can't use `LessThan` with `string` and `string`".to_string()]
    );
    assert_eq!(
        messages("auto b = true and 1"),
        vec!["you can't use `And` with `bool` and `int`".to_string()]
    );
}

#[test]
fn check_arithmetic_result_types() {
    assert!(messages("float f = 1 + 2.0 int i = 2 * 3 bool b = 1 < 2.5 bool e = 1 == 1").is_empty());
    assert_eq!(
        messages("int i = 1 / 2.0"),
        vec!["variable `i` is declared as `int`, but got `float`".to_string()]
    );
}

#[test]
fn check_unknown_operands_report_once() {
    assert_eq!(
        messages("auto z = q + 1"),
        vec!["couldn't find a variable or function named `q`".to_string()]
    );
}

#[test]
fn check_not_needs_bool() {
    assert_eq!(messages("auto z = not 1"), vec!["`not` needs `bool`, but got `int`".to_string()]);
    assert!(messages("bool z = not 1 == 2").is_empty());
}

#[test]
fn check_only_named_functions_can_be_called() {
    assert_eq!(messages("(1)(2)"), vec!["only named functions can be called".to_string()]);
}

#[test]
fn check_duplicate_function() {
    assert_eq!(
        messages("void f() { } void f() { }"),
        vec!["function `f` is already defined".to_string()]
    );
}

#[test]
fn check_function_used_before_its_definition() {
    assert!(messages("int n = twice(2) int twice(int x) { return x * 2 }").is_empty());
}

#[test]
fn check_function_name_is_a_value_of_type_function() {
    assert_eq!(
        messages("void f() { } int n = f"),
        vec!["variable `n` is declared as `int`, but got `function`".to_string()]
    );
}

#[test]
fn check_block_variables_do_not_escape() {
    assert_eq!(
        messages("if true { auto a = 1 } else { auto b = 2 } a = 2"),
        vec!["you can't change `a` because it does not exist yet".to_string()]
    );
}

#[test]
fn check_parameters_are_visible_in_the_body_only() {
    assert_eq!(
        messages("int f(int a) { return a } a = 1"),
        vec!["you can't change `a` because it does not exist yet".to_string()]
    );
}

#[test]
fn check_any_and_auto_accept_everything() {
    assert!(messages_with("any v = 1 auto w = \"x\" print(v)", vec![global("print", &["string"], None)]).is_empty());
}

#[test]
fn checker_scopes_read_after_write() {
    let mut c = Checker::new();
    assert!(c.lookup_var("v").is_none());
    c.define_var("v".to_string(), TypeInfo::Int);
    assert_eq!(c.lookup_var("v").map(|t| t.name()), Some("int".to_string()));
    c.push_scope();
    c.define_var("v".to_string(), TypeInfo::String);
    assert_eq!(c.lookup_var("v").map(|t| t.name()), Some("string".to_string()));
    c.pop_scope();
    assert_eq!(c.lookup_var("v").map(|t| t.name()), Some("int".to_string()));
}

#[test]
fn checker_error_is_kept_in_front() {
    let mut c = Checker::new();
    c.error("first".to_string(), Some("help".to_string()));
    let d = c.check_program(&program("y = 1"));
    assert_eq!(d.len(), 2);
    assert_eq!(d[0].message, "first");
    assert_eq!(d[0].help.as_deref(), Some("help"));
}

#[test]
fn checker_registers_globals_by_name() {
    let mut c = Checker::new();
    c.register_globals(vec![global("log", &["int"], None)]);
    assert_eq!(c.lookup_var("log").map(|t| t.name()), Some("function".to_string()));
}

#[test]
fn type_names_round_trip() {
    for name in ["int", "float", "string", "bool", "void", "auto", "any", "Point"] {
        assert_eq!(TypeInfo::from_name(name).name(), name);
    }
    assert_eq!(TypeInfo::Unknown.name(), "unknown");
}

#[test]
fn type_matching() {
    assert!(TypeInfo::Int.matches(&TypeInfo::Int));
    assert!(!TypeInfo::Int.matches(&TypeInfo::Float));
    assert!(TypeInfo::Auto.matches(&TypeInfo::Float));
    assert!(!TypeInfo::Float.matches(&TypeInfo::Auto));
    assert!(TypeInfo::Int.matches(&TypeInfo::Any));
    assert!(TypeInfo::Unknown.matches(&TypeInfo::Bool));
    assert!(TypeInfo::Custom("P".to_string()).matches(&TypeInfo::Custom("P".to_string())));
    assert!(!TypeInfo::Custom("P".to_string()).matches(&TypeInfo::Custom("Q".to_string())));
    assert!(TypeInfo::Float.is_number() && TypeInfo::Int.is_number());
    assert!(!TypeInfo::String.is_number());
}

#[test]
fn default_checker_has_no_scope() {
    let mut c = Checker::default();
    c.define_var("v".to_string(), TypeInfo::Int);
    assert!(c.lookup_var("v").is_none());
    let copy = c.clone();
    assert!(copy.check_program(&[]).is_empty());
}
