//! The static checker of No#: types of expressions, scopes of variables, function signatures,
//! and the diagnostics it reports.
use vstd::prelude::*;
use vstd::string::StringExecFns;

use crate::alist::{
    alist_map, alist_view, find_key, keys_unique, lemma_alist_contains, lemma_alist_get,
    lemma_alist_update, lemma_alist_view,
};
use crate::syntax::{
    expr_size, exprs_size, exprs_view, lemma_exprs_size_elem, lemma_exprs_view,
    lemma_stmt_size_positive, lemma_stmts_size_elem, lemma_stmts_view, opt_str_view, pairs_view,
    stmt_size, stmts_size, stmts_view, DiagnosticV, Expr, ExprV, Op, Stmt, StmtV,
};
use crate::text::{concat3, decimal, str_eq, usize_to_decimal};

verus! {

// ---------------------------------------------------------------------------------------------
// Types

/// A type as the checker knows it.
#[derive(Debug, Clone)]
pub enum TypeInfo {
    Int,
    Float,
    String,
    Bool,
    Void,
    Auto,
    Any,
    Custom(String),
    Unknown,
}

/// The mathematical view of a [`TypeInfo`].
pub enum Ty {
    Int,
    Float,
    Str,
    Bool,
    Void,
    Auto,
    Any,
    Custom(Seq<char>),
    Unknown,
}

impl View for TypeInfo {
    type V = Ty;

    open spec fn view(&self) -> Ty {
        match self {
            TypeInfo::Int => Ty::Int,
            TypeInfo::Float => Ty::Float,
            TypeInfo::String => Ty::Str,
            TypeInfo::Bool => Ty::Bool,
            TypeInfo::Void => Ty::Void,
            TypeInfo::Auto => Ty::Auto,
            TypeInfo::Any => Ty::Any,
            TypeInfo::Custom(s) => Ty::Custom(s@),
            TypeInfo::Unknown => Ty::Unknown,
        }
    }
}

/// The type that a type name stands for: the built-in names, else a custom type of that name.
pub open spec fn ty_from_name(name: Seq<char>) -> Ty {
    if name == "int"@ {
        Ty::Int
    } else if name == "float"@ {
        Ty::Float
    } else if name == "string"@ {
        Ty::Str
    } else if name == "bool"@ {
        Ty::Bool
    } else if name == "void"@ {
        Ty::Void
    } else if name == "auto"@ {
        Ty::Auto
    } else if name == "any"@ {
        Ty::Any
    } else {
        Ty::Custom(name)
    }
}

/// The name under which a type is shown in messages.
pub open spec fn ty_name(t: Ty) -> Seq<char> {
    match t {
        Ty::Int => "int"@,
        Ty::Float => "float"@,
        Ty::Str => "string"@,
        Ty::Bool => "bool"@,
        Ty::Void => "void"@,
        Ty::Auto => "auto"@,
        Ty::Any => "any"@,
        Ty::Custom(name) => name,
        Ty::Unknown => "unknown"@,
    }
}

/// Whether a value of type `actual` is accepted where `expected` is asked for: `auto`, `any`
/// and `unknown` accept everything, `any` and `unknown` are accepted everywhere, and
/// otherwise the two types must be the same.
pub open spec fn ty_matches(expected: Ty, actual: Ty) -> bool {
    ||| expected is Auto
    ||| expected is Any
    ||| expected is Unknown
    ||| actual is Any
    ||| actual is Unknown
    ||| expected == actual
}

/// Whether a type is numeric.
pub open spec fn ty_is_number(t: Ty) -> bool {
    t is Int || t is Float
}

impl TypeInfo {
    /// The type named `name`.
    pub fn from_name(name: &str) -> (t: TypeInfo)
        ensures
            t@ == ty_from_name(name@),
    {
        if str_eq(name, "int") {
            TypeInfo::Int
        } else if str_eq(name, "float") {
            TypeInfo::Float
        } else if str_eq(name, "string") {
            TypeInfo::String
        } else if str_eq(name, "bool") {
            TypeInfo::Bool
        } else if str_eq(name, "void") {
            TypeInfo::Void
        } else if str_eq(name, "auto") {
            TypeInfo::Auto
        } else if str_eq(name, "any") {
            TypeInfo::Any
        } else {
            TypeInfo::Custom(name.to_owned())
        }
    }

    /// The name of this type as shown in messages.
    pub fn name(&self) -> (s: String)
        ensures
            s@ == ty_name(self@),
    {
        match self {
            TypeInfo::Int => String::from_str("int"),
            TypeInfo::Float => String::from_str("float"),
            TypeInfo::String => String::from_str("string"),
            TypeInfo::Bool => String::from_str("bool"),
            TypeInfo::Void => String::from_str("void"),
            TypeInfo::Auto => String::from_str("auto"),
            TypeInfo::Any => String::from_str("any"),
            TypeInfo::Custom(name) => name.clone(),
            TypeInfo::Unknown => String::from_str("unknown"),
        }
    }

    /// Whether the two types are the same.
    pub fn same(&self, other: &TypeInfo) -> (r: bool)
        ensures
            r == (self@ == other@),
    {
        match self {
            TypeInfo::Int => matches!(other, TypeInfo::Int),
            TypeInfo::Float => matches!(other, TypeInfo::Float),
            TypeInfo::String => matches!(other, TypeInfo::String),
            TypeInfo::Bool => matches!(other, TypeInfo::Bool),
            TypeInfo::Void => matches!(other, TypeInfo::Void),
            TypeInfo::Auto => matches!(other, TypeInfo::Auto),
            TypeInfo::Any => matches!(other, TypeInfo::Any),
            TypeInfo::Custom(a) => match other {
                TypeInfo::Custom(b) => str_eq(a.as_str(), b.as_str()),
                _ => false,
            },
            TypeInfo::Unknown => matches!(other, TypeInfo::Unknown),
        }
    }

    /// Whether a value of type `actual` is accepted where `self` is expected.
    pub fn matches(&self, actual: &TypeInfo) -> (r: bool)
        ensures
            r == ty_matches(self@, actual@),
    {
        match (self, actual) {
            (TypeInfo::Auto, _) | (TypeInfo::Any, _) | (TypeInfo::Unknown, _) | (
                _,
                TypeInfo::Any,
            ) | (_, TypeInfo::Unknown) => true,
            _ => self.same(actual),
        }
    }

    /// Whether this type is `int` or `float`.
    pub fn is_number(&self) -> (r: bool)
        ensures
            r == ty_is_number(self@),
    {
        match self {
            TypeInfo::Int | TypeInfo::Float => true,
            _ => false,
        }
    }

    /// A copy of this type.
    pub fn duplicate(&self) -> (t: TypeInfo)
        ensures
            t@ == self@,
    {
        match self {
            TypeInfo::Int => TypeInfo::Int,
            TypeInfo::Float => TypeInfo::Float,
            TypeInfo::String => TypeInfo::String,
            TypeInfo::Bool => TypeInfo::Bool,
            TypeInfo::Void => TypeInfo::Void,
            TypeInfo::Auto => TypeInfo::Auto,
            TypeInfo::Any => TypeInfo::Any,
            TypeInfo::Custom(name) => TypeInfo::Custom(name.clone()),
            TypeInfo::Unknown => TypeInfo::Unknown,
        }
    }
}

// ---------------------------------------------------------------------------------------------
// Checker state

/// The signature of a function: its return type and `(type, name)` parameters.
#[derive(Debug, Clone)]
pub struct FunctionSig {
    pub return_type: TypeInfo,
    pub params: Vec<(TypeInfo, String)>,
}

/// The mathematical view of a [`FunctionSig`].
pub struct SigV {
    pub return_type: Ty,
    pub params: Seq<(Ty, Seq<char>)>,
}

/// The view of a parameter list.
pub open spec fn params_view(p: Seq<(TypeInfo, String)>) -> Seq<(Ty, Seq<char>)> {
    p.map_values(|q: (TypeInfo, String)| (q.0@, q.1@))
}

impl View for FunctionSig {
    type V = SigV;

    open spec fn view(&self) -> SigV {
        SigV { return_type: self.return_type@, params: params_view(self.params@) }
    }
}

/// One block of variables.
#[derive(Debug, Clone)]
struct Scope {
    vars: Vec<(String, TypeInfo)>,
}

impl View for Scope {
    type V = Map<Seq<char>, Ty>;

    closed spec fn view(&self) -> Map<Seq<char>, Ty> {
        alist_map(alist_view(self.vars@))
    }
}

impl Scope {
    closed spec fn wf(&self) -> bool {
        keys_unique(alist_view(self.vars@))
    }

    fn new() -> (s: Scope)
        ensures
            s.wf(),
            s@ == Map::<Seq<char>, Ty>::empty(),
    {
        let s = Scope { vars: Vec::new() };
        assert(alist_view(s.vars@) =~= Seq::empty());
        s
    }

    fn insert(&mut self, name: String, ty: TypeInfo)
        requires
            old(self).wf(),
        ensures
            final(self).wf(),
            final(self)@ == old(self)@.insert(name@, ty@),
    {
        let ghost l = alist_view(self.vars@);
        proof {
            lemma_alist_view(self.vars@);
        }
        match find_key(&self.vars, name.as_str()) {
            Some(i) => {
                proof {
                    lemma_alist_update(l, i as int, ty@);
                }
                self.vars.set(i, (name, ty));
                proof {
                    lemma_alist_view(self.vars@);
                    assert(alist_view(self.vars@) =~= l.update(i as int, (l[i as int].0, ty@)));
                }
            },
            None => {
                self.vars.push((name, ty));
                proof {
                    lemma_alist_view(self.vars@);
                    let l2 = alist_view(self.vars@);
                    assert(l2.drop_last() =~= l);
                    assert forall|i: int, j: int| 0 <= i < j < l2.len() implies l2[i].0
                        != l2[j].0 by {
                        if j == l2.len() - 1 {
                            assert(l2[i].0 == l[i].0);
                        } else {
                            assert(l2[i] == l[i] && l2[j] == l[j]);
                        }
                    }
                }
            },
        }
    }

    fn get(&self, name: &str) -> (r: Option<TypeInfo>)
        requires
            self.wf(),
        ensures
            match r {
                Some(t) => self@.contains_key(name@) && t@ == self@[name@],
                None => !self@.contains_key(name@),
            },
    {
        let ghost l = alist_view(self.vars@);
        proof {
            lemma_alist_view(self.vars@);
            lemma_alist_contains(l, name@);
        }
        match find_key(&self.vars, name) {
            Some(i) => {
                proof {
                    lemma_alist_get(l, i as int);
                }
                Some(self.vars[i].1.duplicate())
            },
            None => None,
        }
    }
}

/// A problem found by the checker.
#[derive(Debug, Clone)]
pub struct Diagnostic {
    pub message: String,
    pub start: usize,
    pub end: usize,
    pub help: Option<String>,
    pub rendered: Option<String>,
}

impl View for Diagnostic {
    type V = DiagnosticV;

    open spec fn view(&self) -> DiagnosticV {
        DiagnosticV {
            message: self.message@,
            start: self.start,
            end: self.end,
            help: opt_str_view(self.help),
            rendered: opt_str_view(self.rendered),
        }
    }
}

/// The metadata of a function that the host provides: its parameter types and return type.
#[derive(Debug)]
pub struct GlobalFunction {
    pub parameters: Vec<String>,
    pub returns: Option<String>,
}

/// The mathematical view of a [`GlobalFunction`].
pub struct GlobalFunctionV {
    pub parameters: Seq<Seq<char>>,
    pub returns: Option<Seq<char>>,
}

impl View for GlobalFunction {
    type V = GlobalFunctionV;

    open spec fn view(&self) -> GlobalFunctionV {
        GlobalFunctionV {
            parameters: self.parameters@.map_values(|s: String| s@),
            returns: opt_str_view(self.returns),
        }
    }
}

/// One entry of the host's globals: a name with its metadata, or the reason the metadata
/// could not be read.
pub open spec fn global_view(g: (String, Result<GlobalFunction, String>)) -> (
    Seq<char>,
    Result<GlobalFunctionV, Seq<char>>,
) {
    (
        g.0@,
        match g.1 {
            Ok(f) => Ok(f@),
            Err(e) => Err(e@),
        },
    )
}

/// The view of a list of globals.
pub open spec fn globals_view(s: Seq<(String, Result<GlobalFunction, String>)>) -> Seq<
    (Seq<char>, Result<GlobalFunctionV, Seq<char>>),
> {
    s.map_values(|g: (String, Result<GlobalFunction, String>)| global_view(g))
}

/// The checker: a stack of variable scopes, the known functions, the diagnostics found so
/// far, and the return type of the function being checked.
#[derive(Debug, Clone)]
pub struct Checker {
    scopes: Vec<Scope>,
    functions: Vec<(String, FunctionSig)>,
    diagnostics: Vec<Diagnostic>,
    current_return_type: Option<TypeInfo>,
}

/// The mathematical view of a [`Checker`].
pub struct CheckerV {
    pub scopes: Seq<Map<Seq<char>, Ty>>,
    pub functions: Map<Seq<char>, SigV>,
    pub diagnostics: Seq<DiagnosticV>,
    pub current_return_type: Option<Ty>,
}

impl View for Checker {
    type V = CheckerV;

    closed spec fn view(&self) -> CheckerV {
        CheckerV {
            scopes: self.scopes@.map_values(|s: Scope| s@),
            functions: alist_map(alist_view(self.functions@)),
            diagnostics: self.diagnostics@.map_values(|d: Diagnostic| d@),
            current_return_type: match self.current_return_type {
                Some(t) => Some(t@),
                None => None,
            },
        }
    }
}

// ---------------------------------------------------------------------------------------------
// The meaning of checking, stated over views

/// Records a diagnostic with the given message and help; its span is `0..0` and it carries no
/// rendering.
pub open spec fn emit(st: CheckerV, message: Seq<char>, help: Option<Seq<char>>) -> CheckerV {
    CheckerV {
        diagnostics: st.diagnostics.push(
            DiagnosticV { message, start: 0, end: 0, help, rendered: None },
        ),
        ..st
    }
}

/// Opens a new, empty innermost scope.
pub open spec fn push_scope_s(st: CheckerV) -> CheckerV {
    CheckerV { scopes: st.scopes.push(Map::empty()), ..st }
}

/// Closes the innermost scope, if there is one.
pub open spec fn pop_scope_s(st: CheckerV) -> CheckerV {
    if st.scopes.len() > 0 {
        CheckerV { scopes: st.scopes.drop_last(), ..st }
    } else {
        st
    }
}

/// Gives `name` the type `ty` in the innermost scope (nothing happens without a scope).
pub open spec fn define_s(st: CheckerV, name: Seq<char>, ty: Ty) -> CheckerV {
    if st.scopes.len() > 0 {
        CheckerV {
            scopes: st.scopes.update(
                st.scopes.len() - 1,
                st.scopes[st.scopes.len() - 1].insert(name, ty),
            ),
            ..st
        }
    } else {
        st
    }
}

/// The type of `name` in the innermost scope that defines it.
pub open spec fn lookup_in(scopes: Seq<Map<Seq<char>, Ty>>, name: Seq<char>) -> Option<Ty>
    decreases scopes.len(),
{
    if scopes.len() == 0 {
        None
    } else if scopes.last().contains_key(name) {
        Some(scopes.last()[name])
    } else {
        lookup_in(scopes.drop_last(), name)
    }
}

/// What a name refers to: the innermost variable of that name, else a function of that name
/// (typed `function`), else nothing.
pub open spec fn lookup_var_s(st: CheckerV, name: Seq<char>) -> Option<Ty> {
    match lookup_in(st.scopes, name) {
        Some(t) => Some(t),
        None => if st.functions.contains_key(name) {
            Some(Ty::Custom("function"@))
        } else {
            None
        },
    }
}

/// The `Debug` name of an operator.
pub open spec fn op_debug_name(op: Op) -> Seq<char> {
    match op {
        Op::Add => "Add"@,
        Op::Sub => "Sub"@,
        Op::Mul => "Mul"@,
        Op::Div => "Div"@,
        Op::Equal => "Equal"@,
        Op::NotEqual => "NotEqual"@,
        Op::LessOrEqual => "LessOrEqual"@,
        Op::MoreOrEqual => "MoreOrEqual"@,
        Op::LessThan => "LessThan"@,
        Op::MoreThan => "MoreThan"@,
        Op::Concat => "Concat"@,
        Op::And => "And"@,
        Op::Or => "Or"@,
        Op::Not => "Not"@,
    }
}

/// The type of a binary operation on operands of types `left` and `right`, with the
/// diagnostic for operands that the operator does not take. An unknown operand makes the
/// result unknown without a further diagnostic.
pub open spec fn check_binary_s(st: CheckerV, op: Op, left: Ty, right: Ty) -> (CheckerV, Ty) {
    if left is Unknown || right is Unknown {
        (st, Ty::Unknown)
    } else if (op == Op::Add || op == Op::Sub || op == Op::Mul || op == Op::Div) && ty_is_number(
        left,
    ) && ty_is_number(right) {
        (
            st,
            if left is Float || right is Float {
                Ty::Float
            } else {
                Ty::Int
            },
        )
    } else if op == Op::Concat && left is Str && right is Str {
        (st, Ty::Str)
    } else if (op == Op::Equal || op == Op::NotEqual) && ty_matches(left, right) {
        (st, Ty::Bool)
    } else if (op == Op::LessThan || op == Op::MoreThan || op == Op::LessOrEqual || op
        == Op::MoreOrEqual) && ty_is_number(left) && ty_is_number(right) {
        (st, Ty::Bool)
    } else if (op == Op::And || op == Op::Or) && left is Bool && right is Bool {
        (st, Ty::Bool)
    } else {
        (
            emit(
                st,
                "you can't use `"@ + op_debug_name(op) + "` with `"@ + ty_name(left) + "` and `"@
                    + ty_name(right) + "`"@,
                Some("Use compatible types for this operator."@),
            ),
            Ty::Unknown,
        )
    }
}

/// The diagnostics for arguments whose types do not match the parameters, for the first `n`
/// positions (counted from one in the messages).
pub open spec fn arg_errors_s(
    st: CheckerV,
    name: Seq<char>,
    args: Seq<Ty>,
    params: Seq<(Ty, Seq<char>)>,
    n: nat,
) -> CheckerV
    decreases n,
{
    if n == 0 {
        st
    } else {
        let st1 = arg_errors_s(st, name, args, params, (n - 1) as nat);
        let i = n - 1;
        if !ty_matches(params[i].0, args[i]) {
            emit(
                st1,
                "argument "@ + decimal(n) + " for `"@ + name + "` needs `"@ + ty_name(params[i].0)
                    + "`, but got `"@ + ty_name(args[i]) + "`"@,
                None,
            )
        } else {
            st1
        }
    }
}

/// Checking an expression: the state afterwards (with any new diagnostics) and its type.
pub open spec fn check_expr_s(st: CheckerV, e: ExprV) -> (CheckerV, Ty)
    decreases expr_size(e), 1nat,
{
    match e {
        ExprV::Int(_) => (st, Ty::Int),
        ExprV::Float(_) => (st, Ty::Float),
        ExprV::Str(_) => (st, Ty::Str),
        ExprV::Bool(_) => (st, Ty::Bool),
        ExprV::Var(name) => match lookup_var_s(st, name) {
            Some(t) => (st, t),
            None => (
                emit(
                    st,
                    "couldn't find a variable or function named `"@ + name + "`"@,
                    Some("Define `"@ + name + "` before using it."@),
                ),
                Ty::Unknown,
            ),
        },
        ExprV::Call { callee, args } => check_call_s(st, *callee, args),
        ExprV::Unary { op, operand } => {
            let (st1, t) = check_expr_s(st, *operand);
            if op == Op::Not {
                if t is Bool {
                    (st1, Ty::Bool)
                } else if t is Unknown {
                    (st1, Ty::Unknown)
                } else {
                    (emit(st1, "`not` needs `bool`, but got `"@ + ty_name(t) + "`"@, None), Ty::Unknown)
                }
            } else {
                (
                    emit(st1, "unsupported unary operator for `"@ + ty_name(t) + "`"@, None),
                    Ty::Unknown,
                )
            }
        },
        ExprV::Binary { op, left, right } => {
            let (st1, lt) = check_expr_s(st, *left);
            let (st2, rt) = check_expr_s(st1, *right);
            check_binary_s(st2, op, lt, rt)
        },
    }
}

/// Checking a call: only a named function can be called; its arguments are checked from left
/// to right, then their number and types are compared with the signature.
pub open spec fn check_call_s(st: CheckerV, callee: ExprV, args: Seq<ExprV>) -> (CheckerV, Ty)
    decreases 1 + expr_size(callee) + exprs_size(args), 0nat,
{
    match callee {
        ExprV::Var(name) => {
            let (st1, tys) = check_args_s(st, args);
            if st1.functions.contains_key(name) {
                let sig = st1.functions[name];
                let st2 = if tys.len() != sig.params.len() {
                    emit(
                        st1,
                        "`"@ + name + "` needs "@ + decimal(sig.params.len()) + " arguments, but got "@
                            + decimal(tys.len()),
                        Some("Pass the exact number of arguments the function declares."@),
                    )
                } else {
                    st1
                };
                let n = if tys.len() < sig.params.len() {
                    tys.len()
                } else {
                    sig.params.len()
                };
                (arg_errors_s(st2, name, tys, sig.params, n), sig.return_type)
            } else {
                (
                    emit(
                        st1,
                        "couldn't find a function named `"@ + name + "`"@,
                        Some("Declare the function or pass it in the globals JSON."@),
                    ),
                    Ty::Unknown,
                )
            }
        },
        _ => {
            let (st1, _t) = check_expr_s(st, callee);
            (emit(st1, "only named functions can be called"@, None), Ty::Unknown)
        },
    }
}

/// Checking a list of arguments from left to right: the state afterwards and their types.
pub open spec fn check_args_s(st: CheckerV, args: Seq<ExprV>) -> (CheckerV, Seq<Ty>)
    decreases exprs_size(args), 2nat,
{
    if args.len() == 0 {
        (st, Seq::empty())
    } else {
        let (st1, tys) = check_args_s(st, args.drop_last());
        let (st2, t) = check_expr_s(st1, args.last());
        (st2, tys.push(t))
    }
}

/// Defining the parameters of a function, in order, each with the type it names.
pub open spec fn define_params_s(st: CheckerV, params: Seq<(Seq<char>, Seq<char>)>) -> CheckerV
    decreases params.len(),
{
    if params.len() == 0 {
        st
    } else {
        let st1 = define_params_s(st, params.drop_last());
        define_s(st1, params.last().1, ty_from_name(params.last().0))
    }
}

/// Checking one bound of a `for` loop, which must be an `int`.
pub open spec fn for_bound_s(st: CheckerV, label: Seq<char>, e: ExprV) -> CheckerV {
    let (st1, t) = check_expr_s(st, e);
    if !(t is Int) && !(t is Unknown) {
        emit(st1, "for-loop "@ + label + " must be `int`, but got `"@ + ty_name(t) + "`"@, None)
    } else {
        st1
    }
}

/// The value that a `return` statement gives: the type of its expression, else `void`.
pub open spec fn return_value_s(st: CheckerV, e: Option<ExprV>) -> (CheckerV, Ty) {
    match e {
        Some(e) => check_expr_s(st, e),
        None => (st, Ty::Void),
    }
}

/// Checking a statement: the state afterwards.
pub open spec fn check_stmt_s(st: CheckerV, s: StmtV) -> CheckerV
    decreases stmt_size(s), 1nat,
{
    match s {
        StmtV::Let { var_type, name, value } => {
            let (st1, actual) = check_expr_s(st, value);
            let declared = match var_type {
                Some(t) => ty_from_name(t),
                None => actual,
            };
            let st2 = if !ty_matches(declared, actual) {
                emit(
                    st1,
                    "variable `"@ + name + "` is declared as `"@ + ty_name(declared) + "`, but got `"@
                        + ty_name(actual) + "`"@,
                    Some("Change the variable type or assign a matching value."@),
                )
            } else {
                st1
            };
            define_s(st2, name, declared)
        },
        StmtV::Assign { name, value } => {
            let (st1, actual) = check_expr_s(st, value);
            match lookup_var_s(st1, name) {
                Some(expected) => if !ty_matches(expected, actual) {
                    emit(
                        st1,
                        "variable `"@ + name + "` is `"@ + ty_name(expected) + "`, but got `"@
                            + ty_name(actual) + "`"@,
                        Some("Assignments must keep the same type."@),
                    )
                } else {
                    st1
                },
                None => emit(
                    st1,
                    "you can't change `"@ + name + "` because it does not exist yet"@,
                    Some("Create it first with `auto "@ + name + " = ...` or a typed declaration."@),
                ),
            }
        },
        StmtV::Function { return_type, params, body, .. } => {
            let st1 = push_scope_s(st);
            let previous = st1.current_return_type;
            let st2 = CheckerV { current_return_type: Some(ty_from_name(return_type)), ..st1 };
            let st3 = define_params_s(st2, params);
            let st4 = check_stmts_s(st3, body);
            pop_scope_s(CheckerV { current_return_type: previous, ..st4 })
        },
        StmtV::If { condition, then_block, else_block } => {
            let (st1, t) = check_expr_s(st, condition);
            let st2 = if !(t is Bool) && !(t is Unknown) {
                emit(
                    st1,
                    "an `if` needs `bool`, but got `"@ + ty_name(t) + "`"@,
                    Some("Use a bool value or a comparison like `a == b`."@),
                )
            } else {
                st1
            };
            let st3 = pop_scope_s(check_stmts_s(push_scope_s(st2), then_block));
            match else_block {
                Some(b) => pop_scope_s(check_stmts_s(push_scope_s(st3), b)),
                None => st3,
            }
        },
        StmtV::For { var_type, name, start, end, step, body } => {
            let st1 = for_bound_s(st, "start"@, start);
            let st2 = for_bound_s(st1, "end"@, end);
            let st3 = for_bound_s(st2, "step"@, step);
            let st4 = define_s(push_scope_s(st3), name, ty_from_name(var_type));
            pop_scope_s(pop_scope_s(check_stmts_s(push_scope_s(st4), body)))
        },
        StmtV::Expr(e) => check_expr_s(st, e).0,
        StmtV::Return(e) => {
            let (st1, actual) = return_value_s(st, e);
            match st1.current_return_type {
                Some(expected) => if !ty_matches(expected, actual) {
                    emit(
                        st1,
                        "this function promised `"@ + ty_name(expected) + "`, but returned `"@
                            + ty_name(actual) + "`"@,
                        Some("Change the function return type or return a matching value."@),
                    )
                } else {
                    st1
                },
                None => emit(st1, "`return` can only be used inside a function"@, None),
            }
        },
    }
}

/// Checking statements in order: the state afterwards.
pub open spec fn check_stmts_s(st: CheckerV, l: Seq<StmtV>) -> CheckerV
    decreases stmts_size(l), 2nat,
{
    if l.len() == 0 {
        st
    } else {
        proof {
            lemma_stmt_size_positive(l.last());
        }
        check_stmt_s(check_stmts_s(st, l.drop_last()), l.last())
    }
}

/// Checking a block: its statements in a scope of their own.
pub open spec fn check_block_s(st: CheckerV, l: Seq<StmtV>) -> CheckerV {
    pop_scope_s(check_stmts_s(push_scope_s(st), l))
}

/// The signature that a function statement declares.
pub open spec fn declared_sig(return_type: Seq<char>, params: Seq<(Seq<char>, Seq<char>)>) -> SigV {
    SigV {
        return_type: ty_from_name(return_type),
        params: params.map_values(|p: (Seq<char>, Seq<char>)| (ty_from_name(p.0), p.1)),
    }
}

/// Recording the signatures of the functions among `l`, in order; a name declared again is
/// reported and the later declaration replaces the earlier one.
pub open spec fn collect_sigs_s(st: CheckerV, l: Seq<StmtV>) -> CheckerV
    decreases l.len(),
{
    if l.len() == 0 {
        st
    } else {
        let st1 = collect_sigs_s(st, l.drop_last());
        match l.last() {
            StmtV::Function { return_type, name, params, .. } => {
                let st2 = if st1.functions.contains_key(name) {
                    emit(st1, "function `"@ + name + "` is already defined"@, None)
                } else {
                    st1
                };
                CheckerV {
                    functions: st2.functions.insert(name, declared_sig(return_type, params)),
                    ..st2
                }
            },
            _ => st1,
        }
    }
}

/// The signature of a host function: its parameters are named `arg0`, `arg1`, ... and it
/// returns `void` unless it says otherwise.
pub open spec fn global_sig(g: GlobalFunctionV) -> SigV {
    SigV {
        return_type: ty_from_name(
            match g.returns {
                Some(r) => r,
                None => "void"@,
            },
        ),
        params: Seq::new(
            g.parameters.len(),
            |i: int| (ty_from_name(g.parameters[i]), "arg"@ + decimal(i as nat)),
        ),
    }
}

/// Registering the host's functions in order; an entry whose metadata could not be read is
/// reported instead.
pub open spec fn register_globals_s(
    st: CheckerV,
    globals: Seq<(Seq<char>, Result<GlobalFunctionV, Seq<char>>)>,
) -> CheckerV
    decreases globals.len(),
{
    if globals.len() == 0 {
        st
    } else {
        let st1 = register_globals_s(st, globals.drop_last());
        let (name, entry) = globals.last();
        match entry {
            Ok(g) => CheckerV { functions: st1.functions.insert(name, global_sig(g)), ..st1 },
            Err(e) => emit(
                st1,
                "global `"@ + name + "` has invalid metadata: "@ + e,
                Some("Expected JSON like { \"parameters\": [\"int\"], \"returns\": \"void\" }"@),
            ),
        }
    }
}

/// A fresh checker: one empty scope, no functions, no diagnostics, outside any function.
pub open spec fn new_checker_s() -> CheckerV {
    CheckerV {
        scopes: seq![Map::empty()],
        functions: Map::empty(),
        diagnostics: Seq::empty(),
        current_return_type: None,
    }
}

/// Checking a program: the signatures of its functions are recorded first, then its
/// statements are checked in order.
pub open spec fn check_program_s(st: CheckerV, l: Seq<StmtV>) -> CheckerV {
    check_stmts_s(collect_sigs_s(st, l), l)
}

/// The view of a list of types.
pub open spec fn tys_view(s: Seq<TypeInfo>) -> Seq<Ty> {
    s.map_values(|t: TypeInfo| t@)
}

// ---------------------------------------------------------------------------------------------
// The checker

impl Default for Checker {
    /// A checker with no scope at all, no functions, no diagnostics, outside any function.
    fn default() -> (c: Self)
        ensures
            c.wf(),
            c@ == (CheckerV {
                scopes: Seq::empty(),
                functions: Map::empty(),
                diagnostics: Seq::empty(),
                current_return_type: None,
            }),
    {
        let c = Checker {
            scopes: Vec::new(),
            functions: Vec::new(),
            diagnostics: Vec::new(),
            current_return_type: None,
        };
        assert(c@.scopes =~= Seq::empty());
        assert(alist_view(c.functions@) =~= Seq::empty());
        assert(c@.functions =~= Map::empty());
        assert(c@.diagnostics =~= Seq::empty());
        c
    }
}

impl Checker {
    /// Each scope and the function table hold every name at most once.
    pub closed spec fn wf(&self) -> bool {
        &&& forall|i: int| 0 <= i < self.scopes.len() ==> (#[trigger] self.scopes@[i]).wf()
        &&& keys_unique(alist_view(self.functions@))
    }

    /// A fresh checker with one empty scope.
    pub fn new() -> (c: Self)
        ensures
            c.wf(),
            c@ == new_checker_s(),
    {
        let mut scopes: Vec<Scope> = Vec::new();
        scopes.push(Scope::new());
        let c = Checker {
            scopes,
            functions: Vec::new(),
            diagnostics: Vec::new(),
            current_return_type: None,
        };
        assert(c@.scopes =~= seq![Map::<Seq<char>, Ty>::empty()]);
        assert(alist_view(c.functions@) =~= Seq::empty());
        assert(c@.diagnostics =~= Seq::empty());
        c
    }

    /// Records a diagnostic.
    pub fn error(&mut self, message: String, help: Option<String>)
        requires
            old(self).wf(),
        ensures
            final(self).wf(),
            final(self)@ == emit(old(self)@, message@, opt_str_view(help)),
    {
        let d = Diagnostic { message, start: 0, end: 0, help, rendered: None };
        self.diagnostics.push(d);
        assert(self@.diagnostics =~= old(self)@.diagnostics.push(d@));
    }

    /// Opens a new innermost scope.
    pub fn push_scope(&mut self)
        requires
            old(self).wf(),
        ensures
            final(self).wf(),
            final(self)@ == push_scope_s(old(self)@),
    {
        self.scopes.push(Scope::new());
        assert(self@.scopes =~= old(self)@.scopes.push(Map::empty()));
    }

    /// Closes the innermost scope.
    pub fn pop_scope(&mut self)
        requires
            old(self).wf(),
        ensures
            final(self).wf(),
            final(self)@ == pop_scope_s(old(self)@),
    {
        let _ = self.scopes.pop();
        assert(self@.scopes =~= pop_scope_s(old(self)@).scopes);
    }

    /// Gives `name` the type `ty` in the innermost scope.
    pub fn define_var(&mut self, name: String, ty: TypeInfo)
        requires
            old(self).wf(),
        ensures
            final(self).wf(),
            final(self)@ == define_s(old(self)@, name@, ty@),
    {
        match self.scopes.pop() {
            Some(mut scope) => {
                assert(scope.wf());
                scope.insert(name, ty);
                self.scopes.push(scope);
                assert(self@.scopes =~= define_s(old(self)@, name@, ty@).scopes);
            },
            None => {},
        }
    }

    /// The type of `name`: the innermost variable of that name, else `function` when a
    /// function has that name.
    pub fn lookup_var(&self, name: &str) -> (r: Option<TypeInfo>)
        requires
            self.wf(),
        ensures
            match r {
                Some(t) => lookup_var_s(self@, name@) == Some(t@),
                None => lookup_var_s(self@, name@) is None,
            },
    {
        let ghost scopes = self@.scopes;
        let mut i = self.scopes.len();
        assert(scopes.take(i as int) =~= scopes);
        while i > 0
            invariant
                i <= self.scopes.len(),
                self.wf(),
                scopes == self@.scopes,
                lookup_in(scopes, name@) == lookup_in(scopes.take(i as int), name@),
            decreases i,
        {
            i = i - 1;
            assert(scopes.take(i + 1).drop_last() =~= scopes.take(i as int));
            assert(scopes.take(i + 1).last() == self.scopes@[i as int]@);
            match self.scopes[i].get(name) {
                Some(t) => {
                    assert(lookup_in(scopes.take(i + 1), name@) == Some(t@));
                    return Some(t);
                },
                None => {},
            }
        }
        proof {
            lemma_alist_view(self.functions@);
            lemma_alist_contains(alist_view(self.functions@), name@);
        }
        assert(lookup_in(scopes.take(0), name@) is None);
        match find_key(&self.functions, name) {
            Some(j) => {
                assert(alist_view(self.functions@)[j as int].0 == name@);
                Some(TypeInfo::Custom(String::from_str("function")))
            },
            None => None,
        }
    }

    /// The type of a binary operation, reporting operands that the operator does not take.
    fn check_binary(&mut self, op: &Op, left: TypeInfo, right: TypeInfo) -> (t: TypeInfo)
        requires
            old(self).wf(),
        ensures
            final(self).wf(),
            (final(self)@, t@) == check_binary_s(old(self)@, *op, left@, right@),
    {
        let op = *op;
        if matches!(left, TypeInfo::Unknown) || matches!(right, TypeInfo::Unknown) {
            return TypeInfo::Unknown;
        }
        if (op == Op::Add || op == Op::Sub || op == Op::Mul || op == Op::Div) && left.is_number()
            && right.is_number() {
            if matches!(left, TypeInfo::Float) || matches!(right, TypeInfo::Float) {
                TypeInfo::Float
            } else {
                TypeInfo::Int
            }
        } else if op == Op::Concat && matches!(left, TypeInfo::String) && matches!(
            right,
            TypeInfo::String,
        ) {
            TypeInfo::String
        } else if (op == Op::Equal || op == Op::NotEqual) && left.matches(&right) {
            TypeInfo::Bool
        } else if (op == Op::LessThan || op == Op::MoreThan || op == Op::LessOrEqual || op
            == Op::MoreOrEqual) && left.is_number() && right.is_number() {
            TypeInfo::Bool
        } else if (op == Op::And || op == Op::Or) && matches!(left, TypeInfo::Bool) && matches!(
            right,
            TypeInfo::Bool,
        ) {
            TypeInfo::Bool
        } else {
            let mut m = String::from_str("you can't use `");
            m.append(op_debug(op));
            m.append("` with `");
            m.append(left.name().as_str());
            m.append("` and `");
            m.append(right.name().as_str());
            m.append("`");
            self.error(m, Some(String::from_str("Use compatible types for this operator.")));
            TypeInfo::Unknown
        }
    }

    /// The type of an expression, reporting what is wrong inside it.
    fn check_expr(&mut self, expr: &Expr) -> (t: TypeInfo)
        requires
            old(self).wf(),
        ensures
            final(self).wf(),
            (final(self)@, t@) == check_expr_s(old(self)@, expr@),
        decreases expr_size(expr@), 1nat,
    {
        match expr {
            Expr::Int(_) => TypeInfo::Int,
            Expr::Float(_) => TypeInfo::Float,
            Expr::String(_) => TypeInfo::String,
            Expr::Bool(_) => TypeInfo::Bool,
            Expr::Var(name) => match self.lookup_var(name.as_str()) {
                Some(t) => t,
                None => {
                    self.error(
                        concat3("couldn't find a variable or function named `", name.as_str(), "`"),
                        Some(concat3("Define `", name.as_str(), "` before using it.")),
                    );
                    TypeInfo::Unknown
                },
            },
            Expr::Call { callee, args } => self.check_call(&**callee, args),
            Expr::Unary { op, operand } => {
                let t = self.check_expr(&**operand);
                match op {
                    Op::Not => match t {
                        TypeInfo::Bool => TypeInfo::Bool,
                        TypeInfo::Unknown => TypeInfo::Unknown,
                        _ => {
                            self.error(
                                concat3("`not` needs `bool`, but got `", t.name().as_str(), "`"),
                                None,
                            );
                            TypeInfo::Unknown
                        },
                    },
                    _ => {
                        self.error(
                            concat3("unsupported unary operator for `", t.name().as_str(), "`"),
                            None,
                        );
                        TypeInfo::Unknown
                    },
                }
            },
            Expr::Binary { op, left, right } => {
                let lt = self.check_expr(&**left);
                let rt = self.check_expr(&**right);
                self.check_binary(op, lt, rt)
            },
        }
    }

    /// The type of a call, reporting unknown functions and arguments that do not fit.
    fn check_call(&mut self, callee: &Expr, args: &Vec<Expr>) -> (t: TypeInfo)
        requires
            old(self).wf(),
        ensures
            final(self).wf(),
            (final(self)@, t@) == check_call_s(old(self)@, callee@, exprs_view(args@)),
        decreases 1 + expr_size(callee@) + exprs_size(exprs_view(args@)), 0nat,
    {
        let name = match callee {
            Expr::Var(name) => name,
            _ => {
                let _ = self.check_expr(callee);
                self.error(String::from_str("only named functions can be called"), None);
                return TypeInfo::Unknown;
            },
        };
        let ghost argv = exprs_view(args@);
        proof {
            lemma_exprs_view(args@);
        }
        let mut arg_types: Vec<TypeInfo> = Vec::new();
        let mut i: usize = 0;
        assert(argv.take(0) =~= Seq::<ExprV>::empty());
        assert(tys_view(arg_types@) =~= Seq::<Ty>::empty());
        while i < args.len()
            invariant
                self.wf(),
                i <= args.len(),
                argv == exprs_view(args@),
                argv.len() == args.len(),
                forall|k: int| 0 <= k < args.len() ==> #[trigger] argv[k] == args@[k]@,
                callee@ == ExprV::Var(name@),
                (self@, tys_view(arg_types@)) == check_args_s(old(self)@, argv.take(i as int)),
            decreases args.len() - i,
        {
            proof {
                lemma_exprs_size_elem(argv, i as int);
            }
            let ghost before = tys_view(arg_types@);
            let t = self.check_expr(&args[i]);
            arg_types.push(t);
            i = i + 1;
            assert(argv.take(i as int).drop_last() =~= argv.take(i - 1));
            assert(tys_view(arg_types@) =~= before.push(t@));
        }
        assert(argv.take(i as int) =~= argv);
        let ghost st1 = self@;
        let ghost tys = tys_view(arg_types@);
        proof {
            lemma_alist_view(self.functions@);
            lemma_alist_contains(alist_view(self.functions@), name@);
        }
        match find_key(&self.functions, name.as_str()) {
            Some(j) => {
                proof {
                    lemma_alist_get(alist_view(self.functions@), j as int);
                }
                let ghost sig = st1.functions[name@];
                assert(sig == self.functions@[j as int].1@);
                let ret = self.functions[j].1.return_type.duplicate();
                let nparams = self.functions[j].1.params.len();
                let mut ptys: Vec<TypeInfo> = Vec::new();
                let mut k: usize = 0;
                while k < nparams
                    invariant
                        j < self.functions.len(),
                        nparams == self.functions@[j as int].1.params.len(),
                        sig == self.functions@[j as int].1@,
                        k <= nparams,
                        ptys.len() == k,
                        forall|q: int| 0 <= q < k ==> (#[trigger] ptys@[q])@ == sig.params[q].0,
                    decreases nparams - k,
                {
                    ptys.push(self.functions[j].1.params[k].0.duplicate());
                    k = k + 1;
                }
                if arg_types.len() != nparams {
                    let mut m = String::from_str("`");
                    m.append(name.as_str());
                    m.append("` needs ");
                    m.append(usize_to_decimal(nparams).as_str());
                    m.append(" arguments, but got ");
                    m.append(usize_to_decimal(arg_types.len()).as_str());
                    self.error(
                        m,
                        Some(
                            String::from_str(
                                "Pass the exact number of arguments the function declares.",
                            ),
                        ),
                    );
                }
                let ghost st2 = self@;
                let n = if arg_types.len() < nparams {
                    arg_types.len()
                } else {
                    nparams
                };
                let mut k: usize = 0;
                while k < n
                    invariant
                        self.wf(),
                        k <= n,
                        n <= arg_types.len(),
                        n <= ptys.len(),
                        n <= sig.params.len(),
                        tys == tys_view(arg_types@),
                        forall|q: int| 0 <= q < n ==> (#[trigger] ptys@[q])@ == sig.params[q].0,
                        self@ == arg_errors_s(st2, name@, tys, sig.params, k as nat),
                    decreases n - k,
                {
                    if !ptys[k].matches(&arg_types[k]) {
                        let mut m = String::from_str("argument ");
                        m.append(usize_to_decimal(k + 1).as_str());
                        m.append(" for `");
                        m.append(name.as_str());
                        m.append("` needs `");
                        m.append(ptys[k].name().as_str());
                        m.append("`, but got `");
                        m.append(arg_types[k].name().as_str());
                        m.append("`");
                        self.error(m, None);
                    }
                    k = k + 1;
                }
                ret
            },
            None => {
                self.error(
                    concat3("couldn't find a function named `", name.as_str(), "`"),
                    Some(String::from_str("Declare the function or pass it in the globals JSON.")),
                );
                TypeInfo::Unknown
            },
        }
    }
}

/// The `Debug` name of an operator.
pub fn op_debug(op: Op) -> (s: &'static str)
    ensures
        s@ == op_debug_name(op),
{
    match op {
        Op::Add => "Add",
        Op::Sub => "Sub",
        Op::Mul => "Mul",
        Op::Div => "Div",
        Op::Equal => "Equal",
        Op::NotEqual => "NotEqual",
        Op::LessOrEqual => "LessOrEqual",
        Op::MoreOrEqual => "MoreOrEqual",
        Op::LessThan => "LessThan",
        Op::MoreThan => "MoreThan",
        Op::Concat => "Concat",
        Op::And => "And",
        Op::Or => "Or",
        Op::Not => "Not",
    }
}

impl Checker {
    /// Checks one bound of a `for` loop, which must be an `int`.
    fn check_for_bound(&mut self, label: &str, expr: &Expr)
        requires
            old(self).wf(),
        ensures
            final(self).wf(),
            final(self)@ == for_bound_s(old(self)@, label@, expr@),
    {
        let ty = self.check_expr(expr);
        if !matches!(ty, TypeInfo::Int) && !matches!(ty, TypeInfo::Unknown) {
            let mut m = String::from_str("for-loop ");
            m.append(label);
            m.append(" must be `int`, but got `");
            m.append(ty.name().as_str());
            m.append("`");
            self.error(m, None);
        }
    }

    /// Checks a statement.
    fn check_stmt(&mut self, stmt: &Stmt)
        requires
            old(self).wf(),
        ensures
            final(self).wf(),
            final(self)@ == check_stmt_s(old(self)@, stmt@),
        decreases stmt_size(stmt@), 1nat,
    {
        match stmt {
            Stmt::Let { var_type, name, value } => {
                let actual = self.check_expr(value);
                let declared = match var_type {
                    Some(t) => TypeInfo::from_name(t.as_str()),
                    None => actual.duplicate(),
                };
                if !declared.matches(&actual) {
                    let mut m = String::from_str("variable `");
                    m.append(name.as_str());
                    m.append("` is declared as `");
                    m.append(declared.name().as_str());
                    m.append("`, but got `");
                    m.append(actual.name().as_str());
                    m.append("`");
                    self.error(
                        m,
                        Some(
                            String::from_str("Change the variable type or assign a matching value."),
                        ),
                    );
                }
                self.define_var(name.clone(), declared);
            },
            Stmt::Assign { name, value } => {
                let actual = self.check_expr(value);
                match self.lookup_var(name.as_str()) {
                    Some(expected) => {
                        if !expected.matches(&actual) {
                            let mut m = String::from_str("variable `");
                            m.append(name.as_str());
                            m.append("` is `");
                            m.append(expected.name().as_str());
                            m.append("`, but got `");
                            m.append(actual.name().as_str());
                            m.append("`");
                            self.error(
                                m,
                                Some(String::from_str("Assignments must keep the same type.")),
                            );
                        }
                    },
                    None => {
                        self.error(
                            concat3(
                                "you can't change `",
                                name.as_str(),
                                "` because it does not exist yet",
                            ),
                            Some(
                                concat3(
                                    "Create it first with `auto ",
                                    name.as_str(),
                                    " = ...` or a typed declaration.",
                                ),
                            ),
                        );
                    },
                }
            },
            Stmt::Function { return_type, params, body, .. } => {
                self.push_scope();
                let ghost st1 = self@;
                let previous = self.current_return_type.take();
                self.current_return_type = Some(TypeInfo::from_name(return_type.as_str()));
                let ghost st2 = self@;
                assert(st2 == CheckerV {
                    current_return_type: Some(ty_from_name(return_type@)),
                    ..st1
                });
                let ghost pv = pairs_view(params@);
                let mut k: usize = 0;
                assert(pv.take(0) =~= Seq::<(Seq<char>, Seq<char>)>::empty());
                while k < params.len()
                    invariant
                        self.wf(),
                        k <= params.len(),
                        pv == pairs_view(params@),
                        self@ == define_params_s(st2, pv.take(k as int)),
                    decreases params.len() - k,
                {
                    let ty = TypeInfo::from_name(params[k].0.as_str());
                    self.define_var(params[k].1.clone(), ty);
                    k = k + 1;
                    assert(pv.take(k as int).drop_last() =~= pv.take(k - 1));
                }
                assert(pv.take(k as int) =~= pv);
                let ghost st3 = self@;
                let ghost bv = stmts_view(body@);
                proof {
                    lemma_stmts_view(body@);
                }
                let mut k: usize = 0;
                assert(bv.take(0) =~= Seq::<StmtV>::empty());
                while k < body.len()
                    invariant
                        self.wf(),
                        k <= body.len(),
                        bv == stmts_view(body@),
                        bv.len() == body.len(),
                        forall|q: int| 0 <= q < body.len() ==> #[trigger] bv[q] == body@[q]@,
                        stmt@ == (StmtV::Function {
                            return_type: return_type@,
                            name: stmt@->Function_name,
                            params: pv,
                            body: bv,
                        }),
                        self@ == check_stmts_s(st3, bv.take(k as int)),
                    decreases body.len() - k,
                {
                    proof {
                        lemma_stmts_size_elem(bv, k as int);
                    }
                    self.check_stmt(&body[k]);
                    k = k + 1;
                    assert(bv.take(k as int).drop_last() =~= bv.take(k - 1));
                }
                assert(bv.take(k as int) =~= bv);
                self.current_return_type = previous;
                self.pop_scope();
            },
            Stmt::If { condition, then_block, else_block } => {
                let condition_type = self.check_expr(condition);
                if !matches!(condition_type, TypeInfo::Bool) && !matches!(
                    condition_type,
                    TypeInfo::Unknown,
                ) {
                    self.error(
                        concat3(
                            "an `if` needs `bool`, but got `",
                            condition_type.name().as_str(),
                            "`",
                        ),
                        Some(String::from_str("Use a bool value or a comparison like `a == b`.")),
                    );
                }
                self.check_block(then_block);
                match else_block {
                    Some(b) => {
                        self.check_block(b);
                    },
                    None => {},
                }
            },
            Stmt::For { var_type, name, start, end, step, body } => {
                self.check_for_bound("start", start);
                self.check_for_bound("end", end);
                self.check_for_bound("step", step);
                self.push_scope();
                self.define_var(name.clone(), TypeInfo::from_name(var_type.as_str()));
                self.check_block(body);
                self.pop_scope();
            },
            Stmt::Expr(e) => {
                let _ = self.check_expr(e);
            },
            Stmt::Return(e) => {
                let actual = match e {
                    Some(e) => self.check_expr(e),
                    None => TypeInfo::Void,
                };
                let expected = match &self.current_return_type {
                    Some(t) => Some(t.duplicate()),
                    None => None,
                };
                match expected {
                    Some(expected) => {
                        if !expected.matches(&actual) {
                            let mut m = String::from_str("this function promised `");
                            m.append(expected.name().as_str());
                            m.append("`, but returned `");
                            m.append(actual.name().as_str());
                            m.append("`");
                            self.error(
                                m,
                                Some(
                                    String::from_str(
                                        "Change the function return type or return a matching value.",
                                    ),
                                ),
                            );
                        }
                    },
                    None => {
                        self.error(
                            String::from_str("`return` can only be used inside a function"),
                            None,
                        );
                    },
                }
            },
        }
    }

    /// Checks a block: its statements in a scope of their own.
    fn check_block(&mut self, statements: &Vec<Stmt>)
        requires
            old(self).wf(),
        ensures
            final(self).wf(),
            final(self)@ == check_block_s(old(self)@, stmts_view(statements@)),
        decreases stmts_size(stmts_view(statements@)), 2nat,
    {
        self.push_scope();
        let ghost st1 = self@;
        let ghost bv = stmts_view(statements@);
        proof {
            lemma_stmts_view(statements@);
        }
        let mut k: usize = 0;
        assert(bv.take(0) =~= Seq::<StmtV>::empty());
        while k < statements.len()
            invariant
                self.wf(),
                k <= statements.len(),
                bv == stmts_view(statements@),
                bv.len() == statements.len(),
                forall|q: int| 0 <= q < statements.len() ==> #[trigger] bv[q] == statements@[q]@,
                self@ == check_stmts_s(st1, bv.take(k as int)),
            decreases statements.len() - k,
        {
            proof {
                lemma_stmts_size_elem(bv, k as int);
            }
            self.check_stmt(&statements[k]);
            k = k + 1;
            assert(bv.take(k as int).drop_last() =~= bv.take(k - 1));
        }
        assert(bv.take(k as int) =~= bv);
        self.pop_scope();
    }
}

/// The view of a list of diagnostics.
pub open spec fn diags_view(s: Seq<Diagnostic>) -> Seq<DiagnosticV> {
    s.map_values(|d: Diagnostic| d@)
}

impl Checker {
    /// Records the signature of a function under `name`, replacing an earlier one.
    fn insert_function(&mut self, name: String, sig: FunctionSig)
        requires
            old(self).wf(),
        ensures
            final(self).wf(),
            final(self)@ == (CheckerV {
                functions: old(self)@.functions.insert(name@, sig@),
                ..old(self)@
            }),
    {
        let ghost l = alist_view(self.functions@);
        proof {
            lemma_alist_view(self.functions@);
        }
        match find_key(&self.functions, name.as_str()) {
            Some(i) => {
                proof {
                    lemma_alist_update(l, i as int, sig@);
                }
                self.functions.set(i, (name, sig));
                proof {
                    lemma_alist_view(self.functions@);
                    assert(alist_view(self.functions@) =~= l.update(i as int, (l[i as int].0, sig@)));
                }
            },
            None => {
                self.functions.push((name, sig));
                proof {
                    lemma_alist_view(self.functions@);
                    let l2 = alist_view(self.functions@);
                    assert(l2.drop_last() =~= l);
                    assert forall|i: int, j: int| 0 <= i < j < l2.len() implies l2[i].0
                        != l2[j].0 by {
                        if j == l2.len() - 1 {
                            assert(l2[i].0 == l[i].0);
                        } else {
                            assert(l2[i] == l[i] && l2[j] == l[j]);
                        }
                    }
                }
            },
        }
        assert(self@.functions == old(self)@.functions.insert(name@, sig@));
    }

    /// Whether a function of this name is known.
    fn has_function(&self, name: &str) -> (r: bool)
        requires
            self.wf(),
        ensures
            r == self@.functions.contains_key(name@),
    {
        proof {
            lemma_alist_view(self.functions@);
            lemma_alist_contains(alist_view(self.functions@), name@);
        }
        match find_key(&self.functions, name) {
            Some(j) => {
                assert(alist_view(self.functions@)[j as int].0 == name@);
                true
            },
            None => false,
        }
    }

    /// Records the signatures of the functions declared among `statements`.
    fn collect_function_signatures(&mut self, statements: &[Stmt])
        requires
            old(self).wf(),
        ensures
            final(self).wf(),
            final(self)@ == collect_sigs_s(old(self)@, stmts_view(statements@)),
    {
        let ghost bv = stmts_view(statements@);
        proof {
            lemma_stmts_view(statements@);
        }
        let mut k: usize = 0;
        assert(bv.take(0) =~= Seq::<StmtV>::empty());
        while k < statements.len()
            invariant
                self.wf(),
                k <= statements.len(),
                bv == stmts_view(statements@),
                bv.len() == statements.len(),
                forall|q: int| 0 <= q < statements.len() ==> #[trigger] bv[q] == statements@[q]@,
                self@ == collect_sigs_s(old(self)@, bv.take(k as int)),
            decreases statements.len() - k,
        {
            match &statements[k] {
                Stmt::Function { return_type, name, params, .. } => {
                    if self.has_function(name.as_str()) {
                        self.error(
                            concat3("function `", name.as_str(), "` is already defined"),
                            None,
                        );
                    }
                    let mut ps: Vec<(TypeInfo, String)> = Vec::new();
                    let mut q: usize = 0;
                    while q < params.len()
                        invariant
                            q <= params.len(),
                            ps.len() == q,
                            forall|r: int|
                                0 <= r < q ==> (#[trigger] ps@[r]).0@ == ty_from_name(
                                    params@[r].0@,
                                ) && ps@[r].1@ == params@[r].1@,
                        decreases params.len() - q,
                    {
                        ps.push((TypeInfo::from_name(params[q].0.as_str()), params[q].1.clone()));
                        q = q + 1;
                    }
                    let sig = FunctionSig { return_type: TypeInfo::from_name(return_type.as_str()), params: ps };
                    assert(sig@ == declared_sig(return_type@, pairs_view(params@))) by {
                        assert(params_view(ps@) =~= pairs_view(params@).map_values(
                            |p: (Seq<char>, Seq<char>)| (ty_from_name(p.0), p.1),
                        ));
                    }
                    self.insert_function(name.clone(), sig);
                },
                _ => {},
            }
            k = k + 1;
            assert(bv.take(k as int).drop_last() =~= bv.take(k - 1));
        }
        assert(bv.take(k as int) =~= bv);
    }

    /// Registers the functions that the host provides. Each entry is a name with the function's
    /// metadata, or with the text of the error met while reading that metadata.
    pub fn register_globals(&mut self, globals: Vec<(String, Result<GlobalFunction, String>)>)
        requires
            old(self).wf(),
        ensures
            final(self).wf(),
            final(self)@ == register_globals_s(old(self)@, globals_view(globals@)),
    {
        let ghost gv = globals_view(globals@);
        let mut k: usize = 0;
        assert(gv.take(0) =~= Seq::<(Seq<char>, Result<GlobalFunctionV, Seq<char>>)>::empty());
        while k < globals.len()
            invariant
                self.wf(),
                k <= globals.len(),
                gv == globals_view(globals@),
                self@ == register_globals_s(old(self)@, gv.take(k as int)),
            decreases globals.len() - k,
        {
            let name = &globals[k].0;
            match &globals[k].1 {
                Ok(global) => {
                    let mut ps: Vec<(TypeInfo, String)> = Vec::new();
                    let mut q: usize = 0;
                    while q < global.parameters.len()
                        invariant
                            q <= global.parameters.len(),
                            ps.len() == q,
                            forall|r: int|
                                0 <= r < q ==> (#[trigger] ps@[r]).0@ == ty_from_name(
                                    global.parameters@[r]@,
                                ) && ps@[r].1@ == "arg"@ + decimal(r as nat),
                        decreases global.parameters.len() - q,
                    {
                        let mut arg = String::from_str("arg");
                        arg.append(usize_to_decimal(q).as_str());
                        ps.push((TypeInfo::from_name(global.parameters[q].as_str()), arg));
                        q = q + 1;
                    }
                    let return_type = match &global.returns {
                        Some(r) => TypeInfo::from_name(r.as_str()),
                        None => TypeInfo::from_name("void"),
                    };
                    let sig = FunctionSig { return_type, params: ps };
                    assert(sig@ == global_sig(global@)) by {
                        assert(params_view(ps@) =~= global_sig(global@).params);
                    }
                    self.insert_function(name.clone(), sig);
                },
                Err(e) => {
                    self.error(
                        concat3("global `", name.as_str(), "` has invalid metadata: ")
                            .concat(e.as_str()),
                        Some(
                            String::from_str(
                                "Expected JSON like { \"parameters\": [\"int\"], \"returns\": \"void\" }",
                            ),
                        ),
                    );
                },
            }
            k = k + 1;
            assert(gv.take(k as int).drop_last() =~= gv.take(k - 1));
        }
        assert(gv.take(k as int) =~= gv);
    }

    /// Checks a whole program and returns the diagnostics found, those already recorded first.
    pub fn check_program(self, statements: &[Stmt]) -> (d: Vec<Diagnostic>)
        requires
            self.wf(),
        ensures
            diags_view(d@) == check_program_s(self@, stmts_view(statements@)).diagnostics,
    {
        let mut this = self;
        this.collect_function_signatures(statements);
        let ghost st1 = this@;
        let ghost bv = stmts_view(statements@);
        proof {
            lemma_stmts_view(statements@);
        }
        let mut k: usize = 0;
        assert(bv.take(0) =~= Seq::<StmtV>::empty());
        while k < statements.len()
            invariant
                this.wf(),
                k <= statements.len(),
                bv == stmts_view(statements@),
                bv.len() == statements.len(),
                forall|q: int| 0 <= q < statements.len() ==> #[trigger] bv[q] == statements@[q]@,
                this@ == check_stmts_s(st1, bv.take(k as int)),
            decreases statements.len() - k,
        {
            this.check_stmt(&statements[k]);
            k = k + 1;
            assert(bv.take(k as int).drop_last() =~= bv.take(k - 1));
        }
        assert(bv.take(k as int) =~= bv);
        assert(diags_view(this.diagnostics@) == this@.diagnostics);
        this.diagnostics
    }
}

/// Checks a program against the host's functions and returns the diagnostics found.
pub fn check_program(
    statements: &[Stmt],
    globals: Vec<(String, Result<GlobalFunction, String>)>,
) -> (d: Vec<Diagnostic>)
    ensures
        diags_view(d@) == check_program_s(
            register_globals_s(new_checker_s(), globals_view(globals@)),
            stmts_view(statements@),
        ).diagnostics,
{
    let mut checker = Checker::new();
    checker.register_globals(globals);
    checker.check_program(statements)
}

} // verus!
