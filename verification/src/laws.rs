//! Properties of the front end that hold of all inputs, stated over the meanings that the
//! functions' contracts use.
use vstd::prelude::*;

use crate::commands::{lower_expr_s, lower_exprs_s, lower_stmt_s, lower_stmts_s, CsExprV, ValueV};
use crate::eval::{
    arg_errors_s, check_args_s, check_block_s, check_call_s, check_expr_s, check_program_s,
    check_stmt_s, check_stmts_s, collect_sigs_s, define_params_s, define_s, emit, for_bound_s,
    lookup_var_s, new_checker_s, pop_scope_s, push_scope_s, register_globals_s,
    return_value_s, ty_from_name, ty_matches, ty_name, check_binary_s, CheckerV,
    GlobalFunctionV, Ty,
};
use crate::syntax::TokenV;
use crate::text::decimal;
use crate::lexer::{lex_from, lex_spec, lemma_run_end, run_class, run_end, Run};
use crate::parser::{atom_s, parse_s};
use crate::syntax::{
    expr_size, exprs_size, lemma_expr_size_positive, lemma_exprs_size_elem,
    lemma_stmt_size_positive, stmt_size, stmts_size, DiagnosticV, ExprV, Op, StmtV,
};
use crate::analysis;

verus! {

// ---------------------------------------------------------------------------------------------
// Types

/// Naming the type that a name stands for gives the name back.
pub proof fn law_type_name_round_trip(name: Seq<char>)
    ensures
        ty_name(ty_from_name(name)) == name,
{
}

/// A type other than `unknown` and than a custom type with a built-in name is the type that its
/// name stands for.
pub proof fn law_type_from_its_name(t: Ty)
    requires
        !(t is Unknown),
        !(t matches Ty::Custom(n) && (n == "int"@ || n == "float"@ || n == "string"@ || n
            == "bool"@ || n == "void"@ || n == "auto"@ || n == "any"@)),
    ensures
        ty_from_name(ty_name(t)) == t,
{
    reveal_strlit("int");
    reveal_strlit("float");
    reveal_strlit("string");
    reveal_strlit("bool");
    reveal_strlit("void");
    reveal_strlit("auto");
    reveal_strlit("any");
    assert("int"@.len() == 3 && "any"@.len() == 3);
    assert("bool"@.len() == 4 && "void"@.len() == 4 && "auto"@.len() == 4);
    assert("float"@.len() == 5 && "string"@.len() == 6);
    assert("int"@[0] == 'i' && "any"@[0] == 'a');
    assert("bool"@[0] == 'b' && "void"@[0] == 'v' && "auto"@[0] == 'a');
    assert("int"@ != "any"@);
    assert("bool"@ != "void"@ && "bool"@ != "auto"@ && "void"@ != "auto"@);
}

/// Every type accepts itself; `any` and `unknown` accept and are accepted by every type, and
/// `auto` accepts every type.
pub proof fn law_type_matching(t: Ty, u: Ty)
    ensures
        ty_matches(t, t),
        ty_matches(Ty::Any, u) && ty_matches(u, Ty::Any),
        ty_matches(Ty::Unknown, u) && ty_matches(u, Ty::Unknown),
        ty_matches(Ty::Auto, u),
{
}

// ---------------------------------------------------------------------------------------------
// Scopes

/// After `name` is given a type, looking it up finds that type; other names find what they
/// found before.
pub proof fn law_define_then_lookup(st: CheckerV, name: Seq<char>, ty: Ty, other: Seq<char>)
    requires
        st.scopes.len() > 0,
        other != name,
    ensures
        lookup_var_s(define_s(st, name, ty), name) == Some(ty),
        lookup_var_s(define_s(st, name, ty), other) == lookup_var_s(st, other),
{
    let st1 = define_s(st, name, ty);
    assert(st1.scopes.drop_last() =~= st.scopes.drop_last());
}

/// Closing a scope just opened gives back the state before.
pub proof fn law_push_then_pop(st: CheckerV)
    ensures
        pop_scope_s(push_scope_s(st)) == st,
{
    assert(st.scopes.push(Map::empty()).drop_last() =~= st.scopes);
}

// ---------------------------------------------------------------------------------------------
// What checking changes

/// A diagnostic of the checker: over no span and without a drawing.
pub open spec fn checker_diag(d: DiagnosticV) -> bool {
    d.start == 0 && d.end == 0 && d.rendered is None
}

/// `b` keeps the diagnostics of `a` in front and adds only checker diagnostics after them.
pub open spec fn extends(a: Seq<DiagnosticV>, b: Seq<DiagnosticV>) -> bool {
    &&& a.len() <= b.len()
    &&& b.subrange(0, a.len() as int) == a
    &&& forall|k: int| a.len() <= k < b.len() ==> checker_diag(#[trigger] b[k])
}

/// `b` differs from `a` only by diagnostics added after those of `a`.
pub open spec fn only_reports(a: CheckerV, b: CheckerV) -> bool {
    &&& b.scopes == a.scopes
    &&& b.functions == a.functions
    &&& b.current_return_type == a.current_return_type
    &&& extends(a.diagnostics, b.diagnostics)
}

/// `b` has the scopes of `a` but for the innermost, and otherwise differs from `a` only by
/// diagnostics added after those of `a`.
pub open spec fn same_frame(a: CheckerV, b: CheckerV) -> bool {
    &&& b.scopes.len() == a.scopes.len()
    &&& b.scopes.drop_last() == a.scopes.drop_last()
    &&& b.functions == a.functions
    &&& b.current_return_type == a.current_return_type
    &&& extends(a.diagnostics, b.diagnostics)
}

proof fn lemma_extends_refl(a: Seq<DiagnosticV>)
    ensures
        extends(a, a),
{
    assert(a.subrange(0, a.len() as int) =~= a);
}

proof fn lemma_extends_trans(a: Seq<DiagnosticV>, b: Seq<DiagnosticV>, c: Seq<DiagnosticV>)
    requires
        extends(a, b),
        extends(b, c),
    ensures
        extends(a, c),
{
    assert(c.subrange(0, a.len() as int) =~= b.subrange(0, a.len() as int));
    assert forall|k: int| a.len() <= k < c.len() implies checker_diag(#[trigger] c[k]) by {
        if k < b.len() {
            assert(c[k] == c.subrange(0, b.len() as int)[k]);
        }
    }
}

proof fn lemma_emit(st: CheckerV, message: Seq<char>, help: Option<Seq<char>>)
    ensures
        only_reports(st, emit(st, message, help)),
{
    let d = emit(st, message, help).diagnostics;
    assert(d.subrange(0, st.diagnostics.len() as int) =~= st.diagnostics);
}

proof fn lemma_only_reports_trans(a: CheckerV, b: CheckerV, c: CheckerV)
    requires
        only_reports(a, b),
        only_reports(b, c),
    ensures
        only_reports(a, c),
{
    lemma_extends_trans(a.diagnostics, b.diagnostics, c.diagnostics);
}

proof fn lemma_binary(st: CheckerV, op: Op, l: Ty, r: Ty)
    ensures
        only_reports(st, check_binary_s(st, op, l, r).0),
{
    lemma_extends_refl(st.diagnostics);
    lemma_emit(
        st,
        "you can't use `"@ + crate::eval::op_debug_name(op) + "` with `"@ + ty_name(l)
            + "` and `"@ + ty_name(r) + "`"@,
        Some("Use compatible types for this operator."@),
    );
}

proof fn lemma_arg_errors(
    st: CheckerV,
    name: Seq<char>,
    args: Seq<Ty>,
    params: Seq<(Ty, Seq<char>)>,
    n: nat,
)
    ensures
        only_reports(st, arg_errors_s(st, name, args, params, n)),
    decreases n,
{
    if n == 0 {
        lemma_extends_refl(st.diagnostics);
    } else {
        let st1 = arg_errors_s(st, name, args, params, (n - 1) as nat);
        lemma_arg_errors(st, name, args, params, (n - 1) as nat);
        let i = n - 1;
        if !ty_matches(params[i].0, args[i]) {
            let m = "argument "@ + crate::text::decimal(n) + " for `"@ + name + "` needs `"@
                + ty_name(params[i].0) + "`, but got `"@ + ty_name(args[i]) + "`"@;
            lemma_emit(st1, m, None);
            lemma_only_reports_trans(st, st1, emit(st1, m, None));
        }
    }
}

proof fn lemma_expr(st: CheckerV, e: ExprV)
    ensures
        only_reports(st, check_expr_s(st, e).0),
    decreases expr_size(e), 1nat,
{
    lemma_extends_refl(st.diagnostics);
    match e {
        ExprV::Var(name) => {
            lemma_emit(
                st,
                "couldn't find a variable or function named `"@ + name + "`"@,
                Some("Define `"@ + name + "` before using it."@),
            );
        },
        ExprV::Call { callee, args } => {
            lemma_call(st, *callee, args);
        },
        ExprV::Unary { op, operand } => {
            lemma_expr(st, *operand);
            let (st1, t) = check_expr_s(st, *operand);
            lemma_emit(st1, "`not` needs `bool`, but got `"@ + ty_name(t) + "`"@, None);
            lemma_emit(st1, "unsupported unary operator for `"@ + ty_name(t) + "`"@, None);
            lemma_only_reports_trans(
                st,
                st1,
                emit(st1, "`not` needs `bool`, but got `"@ + ty_name(t) + "`"@, None),
            );
            lemma_only_reports_trans(
                st,
                st1,
                emit(st1, "unsupported unary operator for `"@ + ty_name(t) + "`"@, None),
            );
        },
        ExprV::Binary { op, left, right } => {
            lemma_expr(st, *left);
            let (st1, lt) = check_expr_s(st, *left);
            lemma_expr(st1, *right);
            let (st2, rt) = check_expr_s(st1, *right);
            lemma_binary(st2, op, lt, rt);
            lemma_only_reports_trans(st, st1, st2);
            lemma_only_reports_trans(st, st2, check_binary_s(st2, op, lt, rt).0);
        },
        _ => {},
    }
}

proof fn lemma_args(st: CheckerV, args: Seq<ExprV>)
    ensures
        only_reports(st, check_args_s(st, args).0),
        check_args_s(st, args).1.len() == args.len(),
    decreases exprs_size(args), 2nat,
{
    if args.len() == 0 {
        lemma_extends_refl(st.diagnostics);
    } else {
        lemma_expr_size_positive(args.last());
        lemma_args(st, args.drop_last());
        let (st1, tys) = check_args_s(st, args.drop_last());
        lemma_exprs_size_elem(args, args.len() - 1);
        lemma_expr(st1, args.last());
        lemma_only_reports_trans(st, st1, check_expr_s(st1, args.last()).0);
    }
}

proof fn lemma_call(st: CheckerV, callee: ExprV, args: Seq<ExprV>)
    ensures
        only_reports(st, check_call_s(st, callee, args).0),
    decreases 1 + expr_size(callee) + exprs_size(args), 0nat,
{
    match callee {
        ExprV::Var(name) => {
            lemma_args(st, args);
            let (st1, tys) = check_args_s(st, args);
            if st1.functions.contains_key(name) {
                let sig = st1.functions[name];
                let m = "`"@ + name + "` needs "@ + crate::text::decimal(sig.params.len())
                    + " arguments, but got "@ + crate::text::decimal(tys.len());
                let h = Some("Pass the exact number of arguments the function declares."@);
                let st2 = if tys.len() != sig.params.len() {
                    emit(st1, m, h)
                } else {
                    st1
                };
                lemma_emit(st1, m, h);
                lemma_extends_refl(st1.diagnostics);
                let n = if tys.len() < sig.params.len() {
                    tys.len()
                } else {
                    sig.params.len()
                };
                lemma_arg_errors(st2, name, tys, sig.params, n);
                lemma_only_reports_trans(st, st1, st2);
                lemma_only_reports_trans(st, st2, arg_errors_s(st2, name, tys, sig.params, n));
            } else {
                let m = "couldn't find a function named `"@ + name + "`"@;
                let h = Some("Declare the function or pass it in the globals JSON."@);
                lemma_emit(st1, m, h);
                lemma_only_reports_trans(st, st1, emit(st1, m, h));
            }
        },
        _ => {
            lemma_expr(st, callee);
            let st1 = check_expr_s(st, callee).0;
            lemma_emit(st1, "only named functions can be called"@, None);
            lemma_only_reports_trans(st, st1, emit(st1, "only named functions can be called"@, None));
        },
    }
}

/// Checking an expression changes nothing but the diagnostics: it keeps those found before in
/// front and adds only diagnostics over no span and without a drawing.
pub proof fn law_expression_check_only_reports(st: CheckerV, e: ExprV)
    ensures
        check_expr_s(st, e).0.scopes == st.scopes,
        check_expr_s(st, e).0.functions == st.functions,
        check_expr_s(st, e).0.current_return_type == st.current_return_type,
        extends(st.diagnostics, check_expr_s(st, e).0.diagnostics),
        e is Int ==> check_expr_s(st, e) == (st, Ty::Int),
        e is Float ==> check_expr_s(st, e) == (st, Ty::Float),
        e is Str ==> check_expr_s(st, e) == (st, Ty::Str),
        e is Bool ==> check_expr_s(st, e) == (st, Ty::Bool),
{
    lemma_expr(st, e);
}

proof fn lemma_only_reports_frame(a: CheckerV, b: CheckerV)
    requires
        only_reports(a, b),
    ensures
        same_frame(a, b),
{
}

proof fn lemma_frame_trans(a: CheckerV, b: CheckerV, c: CheckerV)
    requires
        same_frame(a, b),
        same_frame(b, c),
    ensures
        same_frame(a, c),
{
    lemma_extends_trans(a.diagnostics, b.diagnostics, c.diagnostics);
}

proof fn lemma_define(st: CheckerV, name: Seq<char>, ty: Ty)
    ensures
        same_frame(st, define_s(st, name, ty)),
{
    lemma_extends_refl(st.diagnostics);
    assert(define_s(st, name, ty).scopes.drop_last() =~= st.scopes.drop_last());
}

proof fn lemma_define_params(st: CheckerV, params: Seq<(Seq<char>, Seq<char>)>)
    ensures
        same_frame(st, define_params_s(st, params)),
    decreases params.len(),
{
    if params.len() == 0 {
        lemma_extends_refl(st.diagnostics);
    } else {
        lemma_define_params(st, params.drop_last());
        let st1 = define_params_s(st, params.drop_last());
        lemma_define(st1, params.last().1, ty_from_name(params.last().0));
        lemma_frame_trans(st, st1, define_s(st1, params.last().1, ty_from_name(params.last().0)));
    }
}

proof fn lemma_for_bound(st: CheckerV, label: Seq<char>, e: ExprV)
    ensures
        only_reports(st, for_bound_s(st, label, e)),
{
    lemma_expr(st, e);
    let (st1, t) = check_expr_s(st, e);
    let m = "for-loop "@ + label + " must be `int`, but got `"@ + ty_name(t) + "`"@;
    lemma_emit(st1, m, None);
    lemma_only_reports_trans(st, st1, emit(st1, m, None));
}

/// Checking statements inside a scope of their own and closing it again.
proof fn lemma_block(st: CheckerV, l: Seq<StmtV>)
    ensures
        only_reports(st, pop_scope_s(check_stmts_s(push_scope_s(st), l))),
    decreases stmts_size(l), 3nat,
{
    let p = push_scope_s(st);
    lemma_stmts(p, l);
    let q = check_stmts_s(p, l);
    assert(p.scopes.drop_last() =~= st.scopes);
}

proof fn lemma_stmt(st: CheckerV, s: StmtV)
    ensures
        same_frame(st, check_stmt_s(st, s)),
        !(s is Let) ==> check_stmt_s(st, s).scopes == st.scopes,
        s matches StmtV::Let { name, .. } ==> exists|ty: Ty|
            check_stmt_s(st, s).scopes == #[trigger] define_s(st, name, ty).scopes,
    decreases stmt_size(s), 1nat,
{
    lemma_extends_refl(st.diagnostics);
    match s {
        StmtV::Let { var_type, name, value } => {
            lemma_expr(st, value);
            let (st1, actual) = check_expr_s(st, value);
            let declared = match var_type {
                Some(t) => ty_from_name(t),
                None => actual,
            };
            let m = "variable `"@ + name + "` is declared as `"@ + ty_name(declared)
                + "`, but got `"@ + ty_name(actual) + "`"@;
            let h = Some("Change the variable type or assign a matching value."@);
            lemma_emit(st1, m, h);
            let st2 = if !ty_matches(declared, actual) {
                emit(st1, m, h)
            } else {
                st1
            };
            lemma_only_reports_trans(st, st1, emit(st1, m, h));
            lemma_only_reports_frame(st, st2);
            lemma_define(st2, name, declared);
            lemma_frame_trans(st, st2, define_s(st2, name, declared));
            assert(check_stmt_s(st, s).scopes == define_s(st, name, declared).scopes);
        },
        StmtV::Assign { name, value } => {
            lemma_expr(st, value);
            let (st1, actual) = check_expr_s(st, value);
            match lookup_var_s(st1, name) {
                Some(expected) => {
                    let m = "variable `"@ + name + "` is `"@ + ty_name(expected) + "`, but got `"@
                        + ty_name(actual) + "`"@;
                    let h = Some("Assignments must keep the same type."@);
                    lemma_emit(st1, m, h);
                    lemma_only_reports_trans(st, st1, emit(st1, m, h));
                },
                None => {
                    let m = "you can't change `"@ + name + "` because it does not exist yet"@;
                    let h = Some(
                        "Create it first with `auto "@ + name + " = ...` or a typed declaration."@,
                    );
                    lemma_emit(st1, m, h);
                    lemma_only_reports_trans(st, st1, emit(st1, m, h));
                },
            }
        },
        StmtV::Function { return_type, params, body, .. } => {
            let st1 = push_scope_s(st);
            let previous = st1.current_return_type;
            let st2 = CheckerV { current_return_type: Some(ty_from_name(return_type)), ..st1 };
            lemma_define_params(st2, params);
            let st3 = define_params_s(st2, params);
            lemma_stmts(st3, body);
            let st4 = check_stmts_s(st3, body);
            lemma_frame_trans(st2, st3, st4);
            assert(st1.scopes.drop_last() =~= st.scopes);
            lemma_extends_refl(st.diagnostics);
        },
        StmtV::If { condition, then_block, else_block } => {
            lemma_expr(st, condition);
            let (st1, t) = check_expr_s(st, condition);
            let m = "an `if` needs `bool`, but got `"@ + ty_name(t) + "`"@;
            let h = Some("Use a bool value or a comparison like `a == b`."@);
            lemma_emit(st1, m, h);
            let st2 = if !(t is Bool) && !(t is Unknown) {
                emit(st1, m, h)
            } else {
                st1
            };
            lemma_only_reports_trans(st, st1, emit(st1, m, h));
            lemma_block(st2, then_block);
            let st3 = pop_scope_s(check_stmts_s(push_scope_s(st2), then_block));
            lemma_only_reports_trans(st, st2, st3);
            match else_block {
                Some(b) => {
                    lemma_block(st3, b);
                    lemma_only_reports_trans(st, st3, pop_scope_s(check_stmts_s(push_scope_s(st3), b)));
                },
                None => {},
            }
        },
        StmtV::For { var_type, name, start, end, step, body } => {
            lemma_for_bound(st, "start"@, start);
            let st1 = for_bound_s(st, "start"@, start);
            lemma_for_bound(st1, "end"@, end);
            let st2 = for_bound_s(st1, "end"@, end);
            lemma_for_bound(st2, "step"@, step);
            let st3 = for_bound_s(st2, "step"@, step);
            lemma_only_reports_trans(st, st1, st2);
            lemma_only_reports_trans(st, st2, st3);
            let st4 = define_s(push_scope_s(st3), name, ty_from_name(var_type));
            lemma_define(push_scope_s(st3), name, ty_from_name(var_type));
            assert(push_scope_s(st3).scopes.drop_last() =~= st3.scopes);
            lemma_block(st4, body);
            let st5 = pop_scope_s(check_stmts_s(push_scope_s(st4), body));
            assert(st5.scopes == st4.scopes);
            lemma_extends_trans(st3.diagnostics, st4.diagnostics, st5.diagnostics);
            lemma_extends_trans(st.diagnostics, st3.diagnostics, st5.diagnostics);
        },
        StmtV::Expr(e) => {
            lemma_expr(st, e);
        },
        StmtV::Return(e) => {
            match e {
                Some(x) => lemma_expr(st, x),
                None => {},
            }
            let (st1, actual) = return_value_s(st, e);
            match st1.current_return_type {
                Some(expected) => {
                    let m = "this function promised `"@ + ty_name(expected) + "`, but returned `"@
                        + ty_name(actual) + "`"@;
                    let h = Some("Change the function return type or return a matching value."@);
                    lemma_emit(st1, m, h);
                    lemma_only_reports_trans(st, st1, emit(st1, m, h));
                },
                None => {
                    let m = "`return` can only be used inside a function"@;
                    lemma_emit(st1, m, None);
                    lemma_only_reports_trans(st, st1, emit(st1, m, None));
                },
            }
        },
    }
}

proof fn lemma_stmts(st: CheckerV, l: Seq<StmtV>)
    ensures
        same_frame(st, check_stmts_s(st, l)),
    decreases stmts_size(l), 2nat,
{
    if l.len() == 0 {
        lemma_extends_refl(st.diagnostics);
    } else {
        lemma_stmt_size_positive(l.last());
        lemma_stmts(st, l.drop_last());
        let st1 = check_stmts_s(st, l.drop_last());
        lemma_stmt(st1, l.last());
        lemma_frame_trans(st, st1, check_stmt_s(st1, l.last()));
    }
}

/// Checking a block leaves the scopes, the known functions and the return type as they were,
/// and only adds diagnostics over no span and without a drawing after those found before.
pub proof fn law_block_check_restores_scopes(st: CheckerV, l: Seq<StmtV>)
    ensures
        check_block_s(st, l).scopes == st.scopes,
        check_block_s(st, l).functions == st.functions,
        check_block_s(st, l).current_return_type == st.current_return_type,
        extends(st.diagnostics, check_block_s(st, l).diagnostics),
{
    lemma_block(st, l);
}

/// Checking statements in a scope keeps the number of scopes and every scope but the
/// innermost, the known functions and the return type, and only adds diagnostics over no span
/// and without a drawing after those found before.
pub proof fn law_statement_check_keeps_frame(st: CheckerV, l: Seq<StmtV>)
    ensures
        check_stmts_s(st, l).scopes.len() == st.scopes.len(),
        check_stmts_s(st, l).scopes.drop_last() == st.scopes.drop_last(),
        check_stmts_s(st, l).functions == st.functions,
        check_stmts_s(st, l).current_return_type == st.current_return_type,
        extends(st.diagnostics, check_stmts_s(st, l).diagnostics),
{
    lemma_stmts(st, l);
}

/// `b` has the scopes and return type of `a`, and only adds diagnostics over no span and
/// without a drawing after those of `a`; its functions may differ.
pub open spec fn only_declares(a: CheckerV, b: CheckerV) -> bool {
    &&& b.scopes == a.scopes
    &&& b.current_return_type == a.current_return_type
    &&& extends(a.diagnostics, b.diagnostics)
}

proof fn lemma_register(st: CheckerV, g: Seq<(Seq<char>, Result<GlobalFunctionV, Seq<char>>)>)
    ensures
        only_declares(st, register_globals_s(st, g)),
    decreases g.len(),
{
    if g.len() == 0 {
        lemma_extends_refl(st.diagnostics);
    } else {
        lemma_register(st, g.drop_last());
        let st1 = register_globals_s(st, g.drop_last());
        let (name, entry) = g.last();
        match entry {
            Ok(_) => {},
            Err(e) => {
                let m = "global `"@ + name + "` has invalid metadata: "@ + e;
                let h = Some(
                    "Expected JSON like { \"parameters\": [\"int\"], \"returns\": \"void\" }"@,
                );
                lemma_emit(st1, m, h);
                lemma_extends_trans(st.diagnostics, st1.diagnostics, emit(st1, m, h).diagnostics);
            },
        }
    }
}

proof fn lemma_collect(st: CheckerV, l: Seq<StmtV>)
    ensures
        only_declares(st, collect_sigs_s(st, l)),
    decreases l.len(),
{
    if l.len() == 0 {
        lemma_extends_refl(st.diagnostics);
    } else {
        lemma_collect(st, l.drop_last());
        let st1 = collect_sigs_s(st, l.drop_last());
        match l.last() {
            StmtV::Function { name, .. } => {
                let m = "function `"@ + name + "` is already defined"@;
                lemma_emit(st1, m, None);
                lemma_extends_trans(st.diagnostics, st1.diagnostics, emit(st1, m, None).diagnostics);
                lemma_extends_refl(st1.diagnostics);
            },
            _ => {},
        }
    }
}

/// Every diagnostic that checking a program reports, from a fresh checker with the host's
/// functions registered, is over no span (`0..0`) and without a drawing.
pub proof fn law_checker_diagnostics_have_no_span(
    globals: Seq<(Seq<char>, Result<GlobalFunctionV, Seq<char>>)>,
    l: Seq<StmtV>,
)
    ensures
        forall|k: int|
            0 <= k < check_program_s(register_globals_s(new_checker_s(), globals), l).diagnostics.len()
                ==> checker_diag(
                #[trigger] check_program_s(
                    register_globals_s(new_checker_s(), globals),
                    l,
                ).diagnostics[k],
            ),
{
    let st0 = new_checker_s();
    lemma_register(st0, globals);
    let st1 = register_globals_s(st0, globals);
    lemma_collect(st1, l);
    let st2 = collect_sigs_s(st1, l);
    lemma_stmts(st2, l);
    let st3 = check_stmts_s(st2, l);
    lemma_extends_trans(st0.diagnostics, st1.diagnostics, st2.diagnostics);
    lemma_extends_trans(st0.diagnostics, st2.diagnostics, st3.diagnostics);
}

// ---------------------------------------------------------------------------------------------
// Lowering

/// Lowering statements lowers each one in its place.
pub proof fn law_lowering_is_elementwise(l: Seq<StmtV>)
    ensures
        lower_stmts_s(l).len() == l.len(),
        forall|i: int| 0 <= i < l.len() ==> #[trigger] lower_stmts_s(l)[i] == lower_stmt_s(l[i]),
    decreases l.len(),
{
    if l.len() > 0 {
        law_lowering_is_elementwise(l.drop_last());
        assert forall|i: int| 0 <= i < l.len() implies #[trigger] lower_stmts_s(l)[i]
            == lower_stmt_s(l[i]) by {
            if i < l.len() - 1 {
                assert(l.drop_last()[i] == l[i]);
            }
        }
    }
}

/// Lowering two programs one after the other gives the commands of each, one after the other.
pub proof fn law_lowering_concat(a: Seq<StmtV>, b: Seq<StmtV>)
    ensures
        lower_stmts_s(a + b) == lower_stmts_s(a) + lower_stmts_s(b),
{
    law_lowering_is_elementwise(a);
    law_lowering_is_elementwise(b);
    law_lowering_is_elementwise(a + b);
    assert(lower_stmts_s(a + b) =~= lower_stmts_s(a) + lower_stmts_s(b));
}

// ---------------------------------------------------------------------------------------------
// The front end as a whole

/// The front end succeeds exactly when it reports no problem.
pub proof fn law_success_iff_no_errors(
    code: Seq<char>,
    globals: Seq<(Seq<char>, Result<GlobalFunctionV, Seq<char>>)>,
    shown: Seq<char>,
)
    ensures
        analysis(code, globals, shown).success <==> analysis(code, globals, shown).errors.len() == 0,
{
}

/// The front end gives commands exactly when the text lexes and parses; it then gives the
/// lowered program, and its problems are those of the checker, each over no span and without a
/// drawing.
pub proof fn law_commands_iff_parsed(
    code: Seq<char>,
    globals: Seq<(Seq<char>, Result<GlobalFunctionV, Seq<char>>)>,
    shown: Seq<char>,
)
    ensures
        analysis(code, globals, shown).commands is Some <==> (lex_spec(code).errors.len() == 0 && parse_s(
            lex_spec(code).tokens,
        ) is Ok),
        analysis(code, globals, shown).commands is Some ==> forall|k: int|
            0 <= k < analysis(code, globals, shown).errors.len() ==> checker_diag(
                #[trigger] analysis(code, globals, shown).errors[k],
            ),
{
    let lx = lex_spec(code);
    if lx.errors.len() == 0 {
        match parse_s(lx.tokens) {
            Ok(stmts) => law_checker_diagnostics_have_no_span(globals, stmts),
            Err(_) => {},
        }
    }
}

/// Every problem that lexing reports is an unknown token over the text that starts no token,
/// which runs from the start of one character to the start of a later one (or the end).
pub proof fn law_lex_errors_span_characters(code: Seq<char>)
    ensures
        forall|k: int|
            0 <= k < lex_spec(code).errors.len() ==> crate::lexer::char_span(
                code,
                #[trigger] lex_spec(code).errors[k],
            ),
{
    crate::lexer::lemma_lex_error_spans(code, 0);
}

/// Checking one statement keeps the known functions and the return type, and only adds
/// diagnostics over no span and without a drawing after those found before. The scopes stay as
/// they were, but for a declaration, which binds its name in the innermost scope (if there is
/// one); the scopes that function bodies, blocks and loops open are closed again.
pub proof fn law_statement_check(st: CheckerV, s: StmtV)
    ensures
        check_stmt_s(st, s).functions == st.functions,
        check_stmt_s(st, s).current_return_type == st.current_return_type,
        extends(st.diagnostics, check_stmt_s(st, s).diagnostics),
        !(s is Let) ==> check_stmt_s(st, s).scopes == st.scopes,
        s matches StmtV::Let { name, .. } ==> exists|ty: Ty|
            check_stmt_s(st, s).scopes == #[trigger] define_s(st, name, ty).scopes,
{
    lemma_stmt(st, s);
}

/// Checking a program keeps the diagnostics that the checker held before in front (for instance
/// those of the host's functions), and adds only diagnostics over no span and without a drawing.
pub proof fn law_program_check_keeps_earlier_diagnostics(st: CheckerV, l: Seq<StmtV>)
    ensures
        extends(st.diagnostics, check_program_s(st, l).diagnostics),
{
    lemma_collect(st, l);
    let st1 = collect_sigs_s(st, l);
    lemma_stmts(st1, l);
    lemma_extends_trans(st.diagnostics, st1.diagnostics, check_stmts_s(st1, l).diagnostics);
}

/// A binary operation gets the same type and the same number of diagnostics with its operand
/// types swapped, unless it is `==` or `!=` with an `auto` operand (`auto` accepts every type
/// where it is expected, but is not accepted everywhere).
pub proof fn law_binary_check_is_symmetric(st: CheckerV, op: Op, l: Ty, r: Ty)
    requires
        !(op == Op::Equal || op == Op::NotEqual) || !(l is Auto || r is Auto),
    ensures
        check_binary_s(st, op, l, r).1 == check_binary_s(st, op, r, l).1,
        check_binary_s(st, op, l, r).0.diagnostics.len() == check_binary_s(
            st,
            op,
            r,
            l,
        ).0.diagnostics.len(),
{
}

/// Giving each name of `defs` its type, in order.
pub open spec fn define_all(st: CheckerV, defs: Seq<(Seq<char>, Ty)>) -> CheckerV
    decreases defs.len(),
{
    if defs.len() == 0 {
        st
    } else {
        let st1 = define_all(st, defs.drop_last());
        define_s(st1, defs.last().0, defs.last().1)
    }
}

proof fn lemma_define_all(st: CheckerV, defs: Seq<(Seq<char>, Ty)>)
    ensures
        same_frame(st, define_all(st, defs)),
    decreases defs.len(),
{
    if defs.len() == 0 {
        lemma_extends_refl(st.diagnostics);
    } else {
        lemma_define_all(st, defs.drop_last());
        let st1 = define_all(st, defs.drop_last());
        lemma_define(st1, defs.last().0, defs.last().1);
        lemma_frame_trans(st, st1, define_s(st1, defs.last().0, defs.last().1));
    }
}

/// Opening a scope, defining any number of names in it and closing it again gives back the
/// scopes as they were; closing a scope when there is none changes nothing.
pub proof fn law_scope_round_trip(st: CheckerV, defs: Seq<(Seq<char>, Ty)>)
    ensures
        pop_scope_s(define_all(push_scope_s(st), defs)).scopes == st.scopes,
        st.scopes.len() == 0 ==> pop_scope_s(st) == st,
{
    let p = push_scope_s(st);
    lemma_define_all(p, defs);
    assert(p.scopes.drop_last() =~= st.scopes);
}

// ---------------------------------------------------------------------------------------------
// Operators, literals, words, calls and host functions

/// How the checker types a binary operation. An unknown operand makes the result unknown
/// without a new diagnostic. Otherwise, with nothing reported: arithmetic on two numbers gives
/// `float` if either is a float and `int` if not; `..` on two strings gives `string`; `==` and
/// `!=` on types that accept each other give `bool`; comparisons on two numbers give `bool`;
/// `and` and `or` on two bools give `bool`. Any other operation reports one diagnostic, with
/// help, and gives an unknown type.
pub proof fn law_binary_operator_typing(st: CheckerV, op: Op, l: Ty, r: Ty)
    ensures
        (l is Unknown || r is Unknown) ==> check_binary_s(st, op, l, r) == (st, Ty::Unknown),
        (op == Op::Add || op == Op::Sub || op == Op::Mul || op == Op::Div) && (l is Int || l is Float)
            && (r is Int || r is Float) ==> check_binary_s(st, op, l, r) == (
            st,
            if l is Float || r is Float {
                Ty::Float
            } else {
                Ty::Int
            },
        ),
        op == Op::Concat && l is Str && r is Str ==> check_binary_s(st, op, l, r) == (st, Ty::Str),
        (op == Op::Equal || op == Op::NotEqual) && (l == r || l is Auto || l is Any || r is Any)
            ==> check_binary_s(st, op, l, r).1 == (if l is Unknown || r is Unknown {
            Ty::Unknown
        } else {
            Ty::Bool
        }) && check_binary_s(st, op, l, r).0 == st,
        (op == Op::LessThan || op == Op::MoreThan || op == Op::LessOrEqual || op == Op::MoreOrEqual)
            && (l is Int || l is Float) && (r is Int || r is Float) ==> check_binary_s(st, op, l, r)
            == (st, Ty::Bool),
        (op == Op::And || op == Op::Or) && l is Bool && r is Bool ==> check_binary_s(st, op, l, r)
            == (st, Ty::Bool),
        (op == Op::And || op == Op::Or || op == Op::Not) && !(l is Bool && r is Bool) && !(
        l is Unknown) && !(r is Unknown) ==> check_binary_s(st, op, l, r).1 == Ty::Unknown
            && check_binary_s(st, op, l, r).0.diagnostics.len() == st.diagnostics.len() + 1
            && check_binary_s(st, op, l, r).0.diagnostics.last().help == Some(
            "Use compatible types for this operator."@,
        ),
{
}

/// A literal or name token read as an operand gives the expression of the same value and is
/// one token long.
pub proof fn law_literal_tokens_parse_to_their_values(t: Seq<TokenV>, pos: int, far: int)
    requires
        0 <= pos < t.len(),
    ensures
        t[pos] == TokenV::True ==> atom_s(t, pos, far).0 == Some((ExprV::Bool(true), pos + 1)),
        t[pos] == TokenV::False ==> atom_s(t, pos, far).0 == Some((ExprV::Bool(false), pos + 1)),
        t[pos] matches TokenV::Int(n) ==> atom_s(t, pos, far).0 == Some((ExprV::Int(n), pos + 1)),
        t[pos] matches TokenV::Float(x) ==> atom_s(t, pos, far).0 == Some((ExprV::Float(x), pos + 1)),
        t[pos] matches TokenV::Str(x) ==> atom_s(t, pos, far).0 == Some((ExprV::Str(x), pos + 1)),
        t[pos] matches TokenV::Ident(x) ==> atom_s(t, pos, far).0 == Some((ExprV::Var(x), pos + 1)),
{
}

/// The words that are keywords of No#.
pub open spec fn keywords() -> Seq<Seq<char>> {
    seq![
        "string"@, "int"@, "float"@, "bool"@, "void"@, "true"@, "false"@, "auto"@, "if"@, "else"@,
        "elseif"@, "and"@, "or"@, "not"@, "return"@, "for"@,
    ]
}

/// A text that is one word: a letter or underscore, then letters, digits and underscores.
pub open spec fn is_word(w: Seq<char>) -> bool {
    &&& w.len() > 0
    &&& ('a' <= w[0] <= 'z' || 'A' <= w[0] <= 'Z' || w[0] == '_')
    &&& forall|k: int|
        0 <= k < w.len() ==> ('a' <= #[trigger] w[k] <= 'z' || 'A' <= w[k] <= 'Z' || w[k] == '_' || '0'
            <= w[k] <= '9')
}

/// A word that is not a keyword lexes to one identifier token holding the whole word, with no
/// error.
pub proof fn law_word_lexes_to_one_identifier(w: Seq<char>)
    requires
        is_word(w),
        !keywords().contains(w),
    ensures
        lex_spec(w).tokens == seq![TokenV::Ident(w)],
        lex_spec(w).errors.len() == 0,
{
    let p = run_class(Run::Ident);
    lemma_run_end(w, 1, p);
    let e = run_end(w, 1, p);
    assert(e == w.len()) by {
        if e < w.len() {
            assert(!p(w[e]));
            assert(is_word(w));
        }
    }
    assert(w.subrange(0, e) =~= w);
    assert forall|k: int| 0 <= k < keywords().len() implies keywords()[k] != w by {
        if keywords()[k] == w {
            assert(keywords().contains(w));
        }
    }
    assert(keywords()[0] == "string"@);
    assert(keywords()[1] == "int"@);
    assert(keywords()[2] == "float"@);
    assert(keywords()[3] == "bool"@);
    assert(keywords()[4] == "void"@);
    assert(keywords()[5] == "true"@);
    assert(keywords()[6] == "false"@);
    assert(keywords()[7] == "auto"@);
    assert(keywords()[8] == "if"@);
    assert(keywords()[9] == "else"@);
    assert(keywords()[10] == "elseif"@);
    assert(keywords()[11] == "and"@);
    assert(keywords()[12] == "or"@);
    assert(keywords()[13] == "not"@);
    assert(keywords()[14] == "return"@);
    assert(keywords()[15] == "for"@);
    assert(crate::lexer::word_token(w) == TokenV::Ident(w));
    assert(lex_from(w, w.len() as int).tokens.len() == 0);
    assert(lex_spec(w).tokens =~= seq![TokenV::Ident(w)]);
}

/// Lowering expressions lowers each one in its place.
pub proof fn law_lowering_expressions_is_elementwise(l: Seq<ExprV>)
    ensures
        lower_exprs_s(l).len() == l.len(),
        forall|i: int| 0 <= i < l.len() ==> #[trigger] lower_exprs_s(l)[i] == lower_expr_s(l[i]),
    decreases l.len(),
{
    if l.len() > 0 {
        law_lowering_expressions_is_elementwise(l.drop_last());
        assert forall|i: int| 0 <= i < l.len() implies #[trigger] lower_exprs_s(l)[i]
            == lower_expr_s(l[i]) by {
            if i < l.len() - 1 {
                assert(l.drop_last()[i] == l[i]);
            }
        }
    }
}

/// Lowering keeps the shape of an expression: a call keeps the callee's name (`unknown` when the
/// callee is not a name) and all its arguments, each lowered in its place; operators keep both
/// operands and their text; literals and names keep their values.
pub proof fn law_lowering_keeps_expression_shape(e: ExprV)
    ensures
        (e matches ExprV::Call { callee, args } ==> (lower_expr_s(e) matches CsExprV::Call {
            name,
            args: lowered,
        } && name == (match *callee {
            ExprV::Var(n) => n,
            _ => "unknown"@,
        }) && lowered.len() == args.len() && forall|i: int|
            0 <= i < args.len() ==> #[trigger] lowered[i] == lower_expr_s(args[i]))),
        (e matches ExprV::Binary { op, left, right } ==> lower_expr_s(e) == (CsExprV::BinaryOp {
            op: crate::commands::op_text(op),
            left: Box::new(lower_expr_s(*left)),
            right: Box::new(lower_expr_s(*right)),
        })),
        (e matches ExprV::Unary { op, operand } ==> lower_expr_s(e) == (CsExprV::UnaryOp {
            op: crate::commands::op_text(op),
            operand: Box::new(lower_expr_s(*operand)),
        })),
        (e matches ExprV::Int(n) ==> lower_expr_s(e) == (CsExprV::Literal { value: ValueV::Int(n) })),
        (e matches ExprV::Bool(b) ==> lower_expr_s(e) == (CsExprV::Literal { value: ValueV::Bool(b) })),
        (e matches ExprV::Str(x) ==> lower_expr_s(e) == (CsExprV::Literal { value: ValueV::Str(x) })),
        (e matches ExprV::Float(x) ==> lower_expr_s(e) == (CsExprV::Literal {
            value: ValueV::Float(x),
        })),
        (e matches ExprV::Var(x) ==> lower_expr_s(e) == (CsExprV::Variable { name: x })),
{
    match e {
        ExprV::Call { callee, args } => law_lowering_expressions_is_elementwise(args),
        _ => {},
    }
}

/// Registering a host function with readable metadata makes its name known with a signature
/// whose `i`-th parameter has the type named by the `i`-th entry of the metadata and is named
/// `arg` and `i`, and whose return type is the one named, `void` when none is.
pub proof fn law_registered_global_signature(
    st: CheckerV,
    globals: Seq<(Seq<char>, Result<GlobalFunctionV, Seq<char>>)>,
    name: Seq<char>,
    g: GlobalFunctionV,
)
    ensures
        ({
            let after = register_globals_s(st, globals.push((name, Ok(g))));
            &&& after.functions.contains_key(name)
            &&& after.functions[name].params.len() == g.parameters.len()
            &&& forall|i: int|
                0 <= i < g.parameters.len() ==> (#[trigger] after.functions[name].params[i]).0
                    == ty_from_name(g.parameters[i]) && after.functions[name].params[i].1 == "arg"@
                    + decimal(i as nat)
            &&& after.functions[name].return_type == ty_from_name(
                match g.returns {
                    Some(r) => r,
                    None => "void"@,
                },
            )
            &&& after.diagnostics == register_globals_s(st, globals).diagnostics
        }),
{
    let all = globals.push((name, Ok(g)));
    assert(all.drop_last() =~= globals);
}

} // verus!
