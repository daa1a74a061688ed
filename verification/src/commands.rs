//! Lowering the syntax tree to the commands that the host runs.
use vstd::prelude::*;
use vstd::string::StringExecFns;

use crate::syntax::{
    expr_size, exprs_size, exprs_view, lemma_exprs_size_elem, lemma_exprs_view,
    lemma_stmts_size_elem, lemma_stmts_view, opt_str_view, pairs_view, stmt_size, stmts_size,
    stmts_view, Expr, ExprV, Op, Stmt, StmtV,
};

verus! {

/// A literal value as the host sees it. A float keeps the digits written in the source.
#[derive(Debug, Clone)]
pub enum Value {
    Int(i32),
    Float(String),
    String(String),
    Bool(bool),
    Null,
}

/// The mathematical view of a [`Value`].
pub enum ValueV {
    Int(i32),
    Float(Seq<char>),
    Str(Seq<char>),
    Bool(bool),
    Null,
}

impl View for Value {
    type V = ValueV;

    open spec fn view(&self) -> ValueV {
        match self {
            Value::Int(n) => ValueV::Int(*n),
            Value::Float(s) => ValueV::Float(s@),
            Value::String(s) => ValueV::Str(s@),
            Value::Bool(b) => ValueV::Bool(*b),
            Value::Null => ValueV::Null,
        }
    }
}

/// An expression as the host sees it.
#[derive(Debug)]
pub enum CsExpr {
    Literal { value: Value },
    Variable { name: String },
    BinaryOp { op: String, left: Box<CsExpr>, right: Box<CsExpr> },
    UnaryOp { op: String, operand: Box<CsExpr> },
    Call { name: String, args: Vec<CsExpr> },
}

/// The mathematical view of a [`CsExpr`].
pub enum CsExprV {
    Literal { value: ValueV },
    Variable { name: Seq<char> },
    BinaryOp { op: Seq<char>, left: Box<CsExprV>, right: Box<CsExprV> },
    UnaryOp { op: Seq<char>, operand: Box<CsExprV> },
    Call { name: Seq<char>, args: Seq<CsExprV> },
}

/// The view of a host expression.
pub open spec fn cs_view(c: CsExpr) -> CsExprV
    decreases c,
{
    match c {
        CsExpr::Literal { value } => CsExprV::Literal { value: value@ },
        CsExpr::Variable { name } => CsExprV::Variable { name: name@ },
        CsExpr::BinaryOp { op, left, right } => CsExprV::BinaryOp {
            op: op@,
            left: Box::new(cs_view(*left)),
            right: Box::new(cs_view(*right)),
        },
        CsExpr::UnaryOp { op, operand } => CsExprV::UnaryOp {
            op: op@,
            operand: Box::new(cs_view(*operand)),
        },
        CsExpr::Call { name, args } => CsExprV::Call { name: name@, args: cs_views(args@) },
    }
}

/// The view of a sequence of host expressions.
pub open spec fn cs_views(s: Seq<CsExpr>) -> Seq<CsExprV>
    decreases s,
{
    if s.len() == 0 {
        Seq::empty()
    } else {
        cs_views(s.drop_last()).push(cs_view(s.last()))
    }
}

impl View for CsExpr {
    type V = CsExprV;

    open spec fn view(&self) -> CsExprV {
        cs_view(*self)
    }
}

/// A command for the host. Function parameters are `(type, name)` pairs.
#[derive(Debug)]
pub enum Command {
    SetVar { name: String, var_type: Option<String>, value: CsExpr },
    AssignVar { name: String, value: CsExpr },
    CallFunction { name: String, args: Vec<CsExpr> },
    DefineFunction {
        name: String,
        return_type: String,
        params: Vec<(String, String)>,
        body: Vec<Command>,
    },
    If { condition: CsExpr, then_block: Vec<Command>, else_block: Option<Vec<Command>> },
    For {
        var_type: String,
        name: String,
        start: CsExpr,
        end: CsExpr,
        step: CsExpr,
        body: Vec<Command>,
    },
    Return { value: Option<CsExpr> },
    ExprStatement { value: CsExpr },
}

/// The mathematical view of a [`Command`].
pub enum CommandV {
    SetVar { name: Seq<char>, var_type: Option<Seq<char>>, value: CsExprV },
    AssignVar { name: Seq<char>, value: CsExprV },
    CallFunction { name: Seq<char>, args: Seq<CsExprV> },
    DefineFunction {
        name: Seq<char>,
        return_type: Seq<char>,
        params: Seq<(Seq<char>, Seq<char>)>,
        body: Seq<CommandV>,
    },
    If { condition: CsExprV, then_block: Seq<CommandV>, else_block: Option<Seq<CommandV>> },
    For {
        var_type: Seq<char>,
        name: Seq<char>,
        start: CsExprV,
        end: CsExprV,
        step: CsExprV,
        body: Seq<CommandV>,
    },
    Return { value: Option<CsExprV> },
    ExprStatement { value: CsExprV },
}

/// The view of a command.
pub open spec fn command_view(c: Command) -> CommandV
    decreases c,
{
    match c {
        Command::SetVar { name, var_type, value } => CommandV::SetVar {
            name: name@,
            var_type: opt_str_view(var_type),
            value: cs_view(value),
        },
        Command::AssignVar { name, value } => CommandV::AssignVar {
            name: name@,
            value: cs_view(value),
        },
        Command::CallFunction { name, args } => CommandV::CallFunction {
            name: name@,
            args: cs_views(args@),
        },
        Command::DefineFunction { name, return_type, params, body } => CommandV::DefineFunction {
            name: name@,
            return_type: return_type@,
            params: pairs_view(params@),
            body: commands_view(body@),
        },
        Command::If { condition, then_block, else_block } => CommandV::If {
            condition: cs_view(condition),
            then_block: commands_view(then_block@),
            else_block: match else_block {
                Some(b) => Some(commands_view(b@)),
                None => None,
            },
        },
        Command::For { var_type, name, start, end, step, body } => CommandV::For {
            var_type: var_type@,
            name: name@,
            start: cs_view(start),
            end: cs_view(end),
            step: cs_view(step),
            body: commands_view(body@),
        },
        Command::Return { value } => CommandV::Return {
            value: match value {
                Some(v) => Some(cs_view(v)),
                None => None,
            },
        },
        Command::ExprStatement { value } => CommandV::ExprStatement { value: cs_view(value) },
    }
}

/// The view of a sequence of commands.
pub open spec fn commands_view(s: Seq<Command>) -> Seq<CommandV>
    decreases s,
{
    if s.len() == 0 {
        Seq::empty()
    } else {
        commands_view(s.drop_last()).push(command_view(s.last()))
    }
}

impl View for Command {
    type V = CommandV;

    open spec fn view(&self) -> CommandV {
        command_view(*self)
    }
}

// ---------------------------------------------------------------------------------------------
// What lowering means

/// The text of an operator as the host reads it.
pub open spec fn op_text(op: Op) -> Seq<char> {
    match op {
        Op::Add => "+"@,
        Op::Sub => "-"@,
        Op::Mul => "*"@,
        Op::Div => "/"@,
        Op::Equal => "=="@,
        Op::LessThan => "<"@,
        Op::MoreThan => ">"@,
        Op::LessOrEqual => "<="@,
        Op::MoreOrEqual => ">="@,
        Op::And => "and"@,
        Op::Or => "or"@,
        Op::Not => "not"@,
        Op::NotEqual => "!="@,
        Op::Concat => ".."@,
    }
}

/// The name under which a call reaches the host: the callee's name, or `unknown` when the
/// callee is not a plain name.
pub open spec fn callee_name(callee: ExprV) -> Seq<char> {
    match callee {
        ExprV::Var(n) => n,
        _ => "unknown"@,
    }
}

/// Lowering an expression.
pub open spec fn lower_expr_s(e: ExprV) -> CsExprV
    decreases expr_size(e), 1nat,
{
    match e {
        ExprV::Int(n) => CsExprV::Literal { value: ValueV::Int(n) },
        ExprV::Float(f) => CsExprV::Literal { value: ValueV::Float(f) },
        ExprV::Str(s) => CsExprV::Literal { value: ValueV::Str(s) },
        ExprV::Bool(b) => CsExprV::Literal { value: ValueV::Bool(b) },
        ExprV::Var(name) => CsExprV::Variable { name },
        ExprV::Unary { op, operand } => CsExprV::UnaryOp {
            op: op_text(op),
            operand: Box::new(lower_expr_s(*operand)),
        },
        ExprV::Binary { op, left, right } => CsExprV::BinaryOp {
            op: op_text(op),
            left: Box::new(lower_expr_s(*left)),
            right: Box::new(lower_expr_s(*right)),
        },
        ExprV::Call { callee, args } => CsExprV::Call {
            name: callee_name(*callee),
            args: lower_exprs_s(args),
        },
    }
}

/// Lowering a sequence of expressions, element by element.
pub open spec fn lower_exprs_s(s: Seq<ExprV>) -> Seq<CsExprV>
    decreases exprs_size(s), 2nat,
{
    if s.len() == 0 {
        Seq::empty()
    } else {
        proof {
            crate::syntax::lemma_expr_size_positive(s.last());
        }
        lower_exprs_s(s.drop_last()).push(lower_expr_s(s.last()))
    }
}

/// Lowering a statement. A statement that is a call becomes a call command; any other
/// expression statement keeps its lowered expression.
pub open spec fn lower_stmt_s(s: StmtV) -> CommandV
    decreases stmt_size(s), 1nat,
{
    match s {
        StmtV::Let { var_type, name, value } => CommandV::SetVar {
            name,
            var_type,
            value: lower_expr_s(value),
        },
        StmtV::Assign { name, value } => CommandV::AssignVar { name, value: lower_expr_s(value) },
        StmtV::Expr(e) => match e {
            ExprV::Call { callee, args } => CommandV::CallFunction {
                name: callee_name(*callee),
                args: lower_exprs_s(args),
            },
            _ => CommandV::ExprStatement { value: lower_expr_s(e) },
        },
        StmtV::Function { return_type, name, params, body } => CommandV::DefineFunction {
            name,
            return_type,
            params,
            body: lower_stmts_s(body),
        },
        StmtV::If { condition, then_block, else_block } => CommandV::If {
            condition: lower_expr_s(condition),
            then_block: lower_stmts_s(then_block),
            else_block: match else_block {
                Some(b) => Some(lower_stmts_s(b)),
                None => None,
            },
        },
        StmtV::For { var_type, name, start, end, step, body } => CommandV::For {
            var_type,
            name,
            start: lower_expr_s(start),
            end: lower_expr_s(end),
            step: lower_expr_s(step),
            body: lower_stmts_s(body),
        },
        StmtV::Return(e) => CommandV::Return {
            value: match e {
                Some(e) => Some(lower_expr_s(e)),
                None => None,
            },
        },
    }
}

/// Lowering a sequence of statements, element by element.
pub open spec fn lower_stmts_s(s: Seq<StmtV>) -> Seq<CommandV>
    decreases stmts_size(s), 2nat,
{
    if s.len() == 0 {
        Seq::empty()
    } else {
        proof {
            crate::syntax::lemma_stmt_size_positive(s.last());
        }
        lower_stmts_s(s.drop_last()).push(lower_stmt_s(s.last()))
    }
}

// ---------------------------------------------------------------------------------------------
// Lowering

/// The text of an operator as the host reads it.
pub fn op_to_string(op: &Op) -> (s: String)
    ensures
        s@ == op_text(*op),
{
    let t = match op {
        Op::Add => "+",
        Op::Sub => "-",
        Op::Mul => "*",
        Op::Div => "/",
        Op::Equal => "==",
        Op::LessThan => "<",
        Op::MoreThan => ">",
        Op::LessOrEqual => "<=",
        Op::MoreOrEqual => ">=",
        Op::And => "and",
        Op::Or => "or",
        Op::Not => "not",
        Op::NotEqual => "!=",
        Op::Concat => "..",
    };
    String::from_str(t)
}

fn callee_to_name(callee: &Expr) -> (s: String)
    ensures
        s@ == callee_name(callee@),
{
    match callee {
        Expr::Var(n) => n.clone(),
        _ => String::from_str("unknown"),
    }
}

fn lower_args(args: &Vec<Expr>) -> (r: Vec<CsExpr>)
    ensures
        cs_views(r@) == lower_exprs_s(exprs_view(args@)),
    decreases exprs_size(exprs_view(args@)), 2nat,
{
    let ghost av = exprs_view(args@);
    proof {
        lemma_exprs_view(args@);
    }
    let mut out: Vec<CsExpr> = Vec::new();
    let mut i: usize = 0;
    assert(av.take(0) =~= Seq::<ExprV>::empty());
    assert(cs_views(out@) =~= Seq::<CsExprV>::empty());
    while i < args.len()
        invariant
            i <= args.len(),
            av == exprs_view(args@),
            av.len() == args.len(),
            forall|k: int| 0 <= k < args.len() ==> #[trigger] av[k] == args@[k]@,
            cs_views(out@) == lower_exprs_s(av.take(i as int)),
        decreases args.len() - i,
    {
        proof {
            lemma_exprs_size_elem(av, i as int);
        }
        let c = lower_expr(&args[i]);
        let ghost before = out@;
        out.push(c);
        i = i + 1;
        assert(av.take(i as int).drop_last() =~= av.take(i - 1));
        assert(out@.drop_last() =~= before);
        proof {
            lemma_exprs_size_elem(av.take(i as int), i - 1);
        }
    }
    assert(av.take(i as int) =~= av);
    out
}

/// Lowers an expression to the form the host reads.
pub fn lower_expr(expr: &Expr) -> (c: CsExpr)
    ensures
        c@ == lower_expr_s(expr@),
    decreases expr_size(expr@), 1nat,
{
    match expr {
        Expr::Int(n) => CsExpr::Literal { value: Value::Int(*n) },
        Expr::Float(f) => CsExpr::Literal { value: Value::Float(f.clone()) },
        Expr::String(s) => CsExpr::Literal { value: Value::String(s.clone()) },
        Expr::Bool(b) => CsExpr::Literal { value: Value::Bool(*b) },
        Expr::Var(name) => CsExpr::Variable { name: name.clone() },
        Expr::Unary { op, operand } => CsExpr::UnaryOp {
            op: op_to_string(op),
            operand: Box::new(lower_expr(&**operand)),
        },
        Expr::Binary { op, left, right } => CsExpr::BinaryOp {
            op: op_to_string(op),
            left: Box::new(lower_expr(&**left)),
            right: Box::new(lower_expr(&**right)),
        },
        Expr::Call { callee, args } => CsExpr::Call {
            name: callee_to_name(&**callee),
            args: lower_args(args),
        },
    }
}

fn copy_pairs(v: &Vec<(String, String)>) -> (r: Vec<(String, String)>)
    ensures
        pairs_view(r@) == pairs_view(v@),
{
    let mut out: Vec<(String, String)> = Vec::new();
    let mut i: usize = 0;
    while i < v.len()
        invariant
            i <= v.len(),
            out.len() == i,
            forall|k: int| 0 <= k < i ==> (#[trigger] out@[k]).0@ == v@[k].0@ && out@[k].1@ == v@[k].1@,
        decreases v.len() - i,
    {
        out.push((v[i].0.clone(), v[i].1.clone()));
        i = i + 1;
    }
    assert(pairs_view(out@) =~= pairs_view(v@));
    out
}

fn copy_opt_string(o: &Option<String>) -> (r: Option<String>)
    ensures
        opt_str_view(r) == opt_str_view(*o),
{
    match o {
        Some(s) => Some(s.clone()),
        None => None,
    }
}

fn lower_block(stmts: &Vec<Stmt>) -> (r: Vec<Command>)
    ensures
        commands_view(r@) == lower_stmts_s(stmts_view(stmts@)),
    decreases stmts_size(stmts_view(stmts@)), 2nat,
{
    let ghost sv = stmts_view(stmts@);
    proof {
        lemma_stmts_view(stmts@);
    }
    let mut out: Vec<Command> = Vec::new();
    let mut i: usize = 0;
    assert(sv.take(0) =~= Seq::<StmtV>::empty());
    assert(commands_view(out@) =~= Seq::<CommandV>::empty());
    while i < stmts.len()
        invariant
            i <= stmts.len(),
            sv == stmts_view(stmts@),
            sv.len() == stmts.len(),
            forall|k: int| 0 <= k < stmts.len() ==> #[trigger] sv[k] == stmts@[k]@,
            commands_view(out@) == lower_stmts_s(sv.take(i as int)),
        decreases stmts.len() - i,
    {
        proof {
            lemma_stmts_size_elem(sv, i as int);
        }
        let c = lower_stmt(&stmts[i]);
        let ghost before = out@;
        out.push(c);
        i = i + 1;
        assert(sv.take(i as int).drop_last() =~= sv.take(i - 1));
        assert(out@.drop_last() =~= before);
        proof {
            crate::syntax::lemma_stmt_size_positive(sv.take(i as int).last());
        }
    }
    assert(sv.take(i as int) =~= sv);
    out
}

/// Lowers a statement to the command the host runs.
pub fn lower_stmt(stmt: &Stmt) -> (c: Command)
    ensures
        c@ == lower_stmt_s(stmt@),
    decreases stmt_size(stmt@), 1nat,
{
    match stmt {
        Stmt::Let { var_type, name, value } => Command::SetVar {
            name: name.clone(),
            var_type: copy_opt_string(var_type),
            value: lower_expr(value),
        },
        Stmt::Assign { name, value } => Command::AssignVar {
            name: name.clone(),
            value: lower_expr(value),
        },
        Stmt::Expr(expr) => match expr {
            Expr::Call { callee, args } => Command::CallFunction {
                name: callee_to_name(&**callee),
                args: lower_args(args),
            },
            _ => Command::ExprStatement { value: lower_expr(expr) },
        },
        Stmt::Function { return_type, name, params, body } => Command::DefineFunction {
            name: name.clone(),
            return_type: return_type.clone(),
            params: copy_pairs(params),
            body: lower_block(body),
        },
        Stmt::If { condition, then_block, else_block } => Command::If {
            condition: lower_expr(condition),
            then_block: lower_block(then_block),
            else_block: match else_block {
                Some(b) => Some(lower_block(b)),
                None => None,
            },
        },
        Stmt::For { var_type, name, start, end, step, body } => Command::For {
            var_type: var_type.clone(),
            name: name.clone(),
            start: lower_expr(start),
            end: lower_expr(end),
            step: lower_expr(step),
            body: lower_block(body),
        },
        Stmt::Return(expr) => Command::Return {
            value: match expr {
                Some(e) => Some(lower_expr(e)),
                None => None,
            },
        },
    }
}

/// Lowers a whole program, statement by statement.
pub fn lower_program(stmts: &[Stmt]) -> (r: Vec<Command>)
    ensures
        commands_view(r@) == lower_stmts_s(stmts_view(stmts@)),
{
    let ghost sv = stmts_view(stmts@);
    proof {
        lemma_stmts_view(stmts@);
    }
    let mut out: Vec<Command> = Vec::new();
    let mut i: usize = 0;
    assert(sv.take(0) =~= Seq::<StmtV>::empty());
    assert(commands_view(out@) =~= Seq::<CommandV>::empty());
    while i < stmts.len()
        invariant
            i <= stmts.len(),
            sv == stmts_view(stmts@),
            sv.len() == stmts.len(),
            forall|k: int| 0 <= k < stmts.len() ==> #[trigger] sv[k] == stmts@[k]@,
            commands_view(out@) == lower_stmts_s(sv.take(i as int)),
        decreases stmts.len() - i,
    {
        let c = lower_stmt(&stmts[i]);
        let ghost before = out@;
        out.push(c);
        i = i + 1;
        assert(sv.take(i as int).drop_last() =~= sv.take(i - 1));
        assert(out@.drop_last() =~= before);
    }
    assert(sv.take(i as int) =~= sv);
    out
}

// ---------------------------------------------------------------------------------------------
// Copies

/// A copy of a literal value.
pub fn clone_value(v: &Value) -> (r: Value)
    ensures
        r@ == v@,
{
    match v {
        Value::Int(n) => Value::Int(*n),
        Value::Float(s) => Value::Float(s.clone()),
        Value::String(s) => Value::String(s.clone()),
        Value::Bool(b) => Value::Bool(*b),
        Value::Null => Value::Null,
    }
}

/// A copy of a host expression.
pub fn clone_cs(c: &CsExpr) -> (r: CsExpr)
    ensures
        r@ == c@,
    decreases c,
{
    match c {
        CsExpr::Literal { value } => CsExpr::Literal { value: clone_value(value) },
        CsExpr::Variable { name } => CsExpr::Variable { name: name.clone() },
        CsExpr::BinaryOp { op, left, right } => CsExpr::BinaryOp {
            op: op.clone(),
            left: Box::new(clone_cs(&**left)),
            right: Box::new(clone_cs(&**right)),
        },
        CsExpr::UnaryOp { op, operand } => CsExpr::UnaryOp {
            op: op.clone(),
            operand: Box::new(clone_cs(&**operand)),
        },
        CsExpr::Call { name, args } => CsExpr::Call { name: name.clone(), args: clone_css(args) },
    }
}

/// A copy of a list of host expressions.
pub fn clone_css(v: &Vec<CsExpr>) -> (r: Vec<CsExpr>)
    ensures
        cs_views(r@) == cs_views(v@),
    decreases v,
{
    let mut out: Vec<CsExpr> = Vec::new();
    let mut i: usize = 0;
    while i < v.len()
        invariant
            i <= v.len(),
            cs_views(out@) == cs_views(v@.take(i as int)),
        decreases v.len() - i,
    {
        proof {
            assert(decreases_to!(v => v@));
            assert(decreases_to!(v@ => v@[i as int]));
        }
        let c = clone_cs(&v[i]);
        let ghost before = out@;
        out.push(c);
        proof {
            assert(out@.drop_last() =~= before);
            assert(v@.take(i + 1).drop_last() =~= v@.take(i as int));
        }
        i = i + 1;
    }
    assert(v@.take(i as int) =~= v@);
    out
}

impl Clone for CsExpr {
    fn clone(&self) -> (r: Self)
        ensures
            r@ == self@,
    {
        clone_cs(self)
    }
}

/// A copy of a command.
pub fn clone_command(c: &Command) -> (r: Command)
    ensures
        r@ == c@,
    decreases c,
{
    match c {
        Command::SetVar { name, var_type, value } => Command::SetVar {
            name: name.clone(),
            var_type: copy_opt_string(var_type),
            value: clone_cs(value),
        },
        Command::AssignVar { name, value } => Command::AssignVar {
            name: name.clone(),
            value: clone_cs(value),
        },
        Command::CallFunction { name, args } => Command::CallFunction {
            name: name.clone(),
            args: clone_css(args),
        },
        Command::DefineFunction { name, return_type, params, body } => Command::DefineFunction {
            name: name.clone(),
            return_type: return_type.clone(),
            params: copy_pairs(params),
            body: clone_commands(body),
        },
        Command::If { condition, then_block, else_block } => Command::If {
            condition: clone_cs(condition),
            then_block: clone_commands(then_block),
            else_block: match else_block {
                Some(b) => Some(clone_commands(b)),
                None => None,
            },
        },
        Command::For { var_type, name, start, end, step, body } => Command::For {
            var_type: var_type.clone(),
            name: name.clone(),
            start: clone_cs(start),
            end: clone_cs(end),
            step: clone_cs(step),
            body: clone_commands(body),
        },
        Command::Return { value } => Command::Return {
            value: match value {
                Some(v) => Some(clone_cs(v)),
                None => None,
            },
        },
        Command::ExprStatement { value } => Command::ExprStatement { value: clone_cs(value) },
    }
}

/// A copy of a list of commands.
pub fn clone_commands(v: &Vec<Command>) -> (r: Vec<Command>)
    ensures
        commands_view(r@) == commands_view(v@),
    decreases v,
{
    let mut out: Vec<Command> = Vec::new();
    let mut i: usize = 0;
    while i < v.len()
        invariant
            i <= v.len(),
            commands_view(out@) == commands_view(v@.take(i as int)),
        decreases v.len() - i,
    {
        proof {
            assert(decreases_to!(v => v@));
            assert(decreases_to!(v@ => v@[i as int]));
        }
        let c = clone_command(&v[i]);
        let ghost before = out@;
        out.push(c);
        proof {
            assert(out@.drop_last() =~= before);
            assert(v@.take(i + 1).drop_last() =~= v@.take(i as int));
        }
        i = i + 1;
    }
    assert(v@.take(i as int) =~= v@);
    out
}

impl Clone for Command {
    fn clone(&self) -> (r: Self)
        ensures
            r@ == self@,
    {
        clone_command(self)
    }
}

} // verus!
