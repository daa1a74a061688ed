//! Tokens and the abstract syntax tree of No#, each with a mathematical view.
use vstd::prelude::*;

verus! {

/// A syntax error found by the parser, ready to be shown to the user.
#[derive(Debug, Clone)]
pub struct ParseDiagnostic {
    pub message: String,
    pub start: usize,
    pub end: usize,
    pub help: Option<String>,
    pub rendered: Option<String>,
}

/// The view of an optional string.
pub open spec fn opt_str_view(o: Option<String>) -> Option<Seq<char>> {
    match o {
        Some(s) => Some(s@),
        None => None,
    }
}

/// The mathematical view shared by the diagnostic records of the front end.
pub struct DiagnosticV {
    pub message: Seq<char>,
    pub start: usize,
    pub end: usize,
    pub help: Option<Seq<char>>,
    pub rendered: Option<Seq<char>>,
}

impl View for ParseDiagnostic {
    type V = DiagnosticV;

    open spec fn view(&self) -> DiagnosticV {
        DiagnosticV {
            message: self.message@,
            start: self.start,
            end: self.end,
            help: opt_str_view(self.help),
            rendered: opt_str_view(self.rendered),
        }
    }
}

/// A lexical token of No#.
///
/// A float literal keeps the digits as written in the source, so `Float("1.50")`.
#[derive(Debug, Clone, PartialEq)]
pub enum Token {
    StringType,
    IntType,
    FloatType,
    BoolType,
    VoidType,
    True,
    False,
    Auto,
    If,
    Else,
    Elseif,
    And,
    Or,
    Not,
    Return,
    For,
    Assign,
    Plus,
    Minus,
    Star,
    Slash,
    Equal,
    NotEqual,
    MoreOrEqual,
    LessOrEqual,
    MoreThan,
    LessThan,
    FatArrow,
    ThinArrow,
    LBrace,
    RBrace,
    LParen,
    RParen,
    Comma,
    Concat,
    Ident(String),
    Float(String),
    Int(i32),
    String(String),
}

/// The mathematical view of a [`Token`]: text payloads become character sequences.
pub enum TokenV {
    StringType,
    IntType,
    FloatType,
    BoolType,
    VoidType,
    True,
    False,
    Auto,
    If,
    Else,
    Elseif,
    And,
    Or,
    Not,
    Return,
    For,
    Assign,
    Plus,
    Minus,
    Star,
    Slash,
    Equal,
    NotEqual,
    MoreOrEqual,
    LessOrEqual,
    MoreThan,
    LessThan,
    FatArrow,
    ThinArrow,
    LBrace,
    RBrace,
    LParen,
    RParen,
    Comma,
    Concat,
    Ident(Seq<char>),
    Float(Seq<char>),
    Int(i32),
    Str(Seq<char>),
}

impl View for Token {
    type V = TokenV;

    open spec fn view(&self) -> TokenV {
        match self {
            Token::StringType => TokenV::StringType,
            Token::IntType => TokenV::IntType,
            Token::FloatType => TokenV::FloatType,
            Token::BoolType => TokenV::BoolType,
            Token::VoidType => TokenV::VoidType,
            Token::True => TokenV::True,
            Token::False => TokenV::False,
            Token::Auto => TokenV::Auto,
            Token::If => TokenV::If,
            Token::Else => TokenV::Else,
            Token::Elseif => TokenV::Elseif,
            Token::And => TokenV::And,
            Token::Or => TokenV::Or,
            Token::Not => TokenV::Not,
            Token::Return => TokenV::Return,
            Token::For => TokenV::For,
            Token::Assign => TokenV::Assign,
            Token::Plus => TokenV::Plus,
            Token::Minus => TokenV::Minus,
            Token::Star => TokenV::Star,
            Token::Slash => TokenV::Slash,
            Token::Equal => TokenV::Equal,
            Token::NotEqual => TokenV::NotEqual,
            Token::MoreOrEqual => TokenV::MoreOrEqual,
            Token::LessOrEqual => TokenV::LessOrEqual,
            Token::MoreThan => TokenV::MoreThan,
            Token::LessThan => TokenV::LessThan,
            Token::FatArrow => TokenV::FatArrow,
            Token::ThinArrow => TokenV::ThinArrow,
            Token::LBrace => TokenV::LBrace,
            Token::RBrace => TokenV::RBrace,
            Token::LParen => TokenV::LParen,
            Token::RParen => TokenV::RParen,
            Token::Comma => TokenV::Comma,
            Token::Concat => TokenV::Concat,
            Token::Ident(s) => TokenV::Ident(s@),
            Token::Float(s) => TokenV::Float(s@),
            Token::Int(n) => TokenV::Int(*n),
            Token::String(s) => TokenV::Str(s@),
        }
    }
}

/// The operators of No# expressions.
#[derive(Debug, Clone, Copy, PartialEq, Eq, Structural)]
pub enum Op {
    Add,
    Sub,
    Mul,
    Div,
    Equal,
    NotEqual,
    LessOrEqual,
    MoreOrEqual,
    LessThan,
    MoreThan,
    Concat,
    And,
    Or,
    Not,
}

/// An expression of No#.
#[derive(Debug, PartialEq)]
pub enum Expr {
    Int(i32),
    Float(String),
    String(String),
    Var(String),
    Bool(bool),
    Binary { op: Op, left: Box<Expr>, right: Box<Expr> },
    Call { callee: Box<Expr>, args: Vec<Expr> },
    Unary { op: Op, operand: Box<Expr> },
}

/// The mathematical view of an [`Expr`].
pub enum ExprV {
    Int(i32),
    Float(Seq<char>),
    Str(Seq<char>),
    Var(Seq<char>),
    Bool(bool),
    Binary { op: Op, left: Box<ExprV>, right: Box<ExprV> },
    Call { callee: Box<ExprV>, args: Seq<ExprV> },
    Unary { op: Op, operand: Box<ExprV> },
}

/// The view of an expression.
pub open spec fn expr_view(e: Expr) -> ExprV
    decreases e,
{
    match e {
        Expr::Int(n) => ExprV::Int(n),
        Expr::Float(s) => ExprV::Float(s@),
        Expr::String(s) => ExprV::Str(s@),
        Expr::Var(s) => ExprV::Var(s@),
        Expr::Bool(b) => ExprV::Bool(b),
        Expr::Binary { op, left, right } => ExprV::Binary {
            op,
            left: Box::new(expr_view(*left)),
            right: Box::new(expr_view(*right)),
        },
        Expr::Call { callee, args } => ExprV::Call {
            callee: Box::new(expr_view(*callee)),
            args: exprs_view(args@),
        },
        Expr::Unary { op, operand } => ExprV::Unary { op, operand: Box::new(expr_view(*operand)) },
    }
}

/// The view of a sequence of expressions, element by element.
pub open spec fn exprs_view(s: Seq<Expr>) -> Seq<ExprV>
    decreases s,
{
    if s.len() == 0 {
        Seq::empty()
    } else {
        exprs_view(s.drop_last()).push(expr_view(s.last()))
    }
}

impl View for Expr {
    type V = ExprV;

    open spec fn view(&self) -> ExprV {
        expr_view(*self)
    }
}

/// A statement of No#. Function parameters are `(type, name)` pairs.
#[derive(Debug, PartialEq)]
pub enum Stmt {
    Let { var_type: Option<String>, name: String, value: Expr },
    Assign { name: String, value: Expr },
    Function { return_type: String, name: String, params: Vec<(String, String)>, body: Vec<Stmt> },
    If { condition: Expr, then_block: Vec<Stmt>, else_block: Option<Vec<Stmt>> },
    For {
        var_type: String,
        name: String,
        start: Expr,
        end: Expr,
        step: Expr,
        body: Vec<Stmt>,
    },
    Expr(Expr),
    Return(Option<Expr>),
}

/// The mathematical view of a [`Stmt`].
pub enum StmtV {
    Let { var_type: Option<Seq<char>>, name: Seq<char>, value: ExprV },
    Assign { name: Seq<char>, value: ExprV },
    Function {
        return_type: Seq<char>,
        name: Seq<char>,
        params: Seq<(Seq<char>, Seq<char>)>,
        body: Seq<StmtV>,
    },
    If { condition: ExprV, then_block: Seq<StmtV>, else_block: Option<Seq<StmtV>> },
    For {
        var_type: Seq<char>,
        name: Seq<char>,
        start: ExprV,
        end: ExprV,
        step: ExprV,
        body: Seq<StmtV>,
    },
    Expr(ExprV),
    Return(Option<ExprV>),
}

/// The view of a list of `(type, name)` pairs.
pub open spec fn pairs_view(s: Seq<(String, String)>) -> Seq<(Seq<char>, Seq<char>)> {
    s.map_values(|p: (String, String)| (p.0@, p.1@))
}

/// The view of a statement.
pub open spec fn stmt_view(s: Stmt) -> StmtV
    decreases s,
{
    match s {
        Stmt::Let { var_type, name, value } => StmtV::Let {
            var_type: match var_type {
                Some(t) => Some(t@),
                None => None,
            },
            name: name@,
            value: expr_view(value),
        },
        Stmt::Assign { name, value } => StmtV::Assign { name: name@, value: expr_view(value) },
        Stmt::Function { return_type, name, params, body } => StmtV::Function {
            return_type: return_type@,
            name: name@,
            params: pairs_view(params@),
            body: stmts_view(body@),
        },
        Stmt::If { condition, then_block, else_block } => StmtV::If {
            condition: expr_view(condition),
            then_block: stmts_view(then_block@),
            else_block: match else_block {
                Some(b) => Some(stmts_view(b@)),
                None => None,
            },
        },
        Stmt::For { var_type, name, start, end, step, body } => StmtV::For {
            var_type: var_type@,
            name: name@,
            start: expr_view(start),
            end: expr_view(end),
            step: expr_view(step),
            body: stmts_view(body@),
        },
        Stmt::Expr(e) => StmtV::Expr(expr_view(e)),
        Stmt::Return(e) => StmtV::Return(
            match e {
                Some(e) => Some(expr_view(e)),
                None => None,
            },
        ),
    }
}

/// The view of a sequence of statements, element by element.
pub open spec fn stmts_view(s: Seq<Stmt>) -> Seq<StmtV>
    decreases s,
{
    if s.len() == 0 {
        Seq::empty()
    } else {
        stmts_view(s.drop_last()).push(stmt_view(s.last()))
    }
}

impl View for Stmt {
    type V = StmtV;

    open spec fn view(&self) -> StmtV {
        stmt_view(*self)
    }
}

/// Viewing a sequence of expressions keeps its length and views each element.
pub proof fn lemma_exprs_view(s: Seq<Expr>)
    ensures
        exprs_view(s).len() == s.len(),
        forall|i: int| 0 <= i < s.len() ==> #[trigger] exprs_view(s)[i] == expr_view(s[i]),
    decreases s.len(),
{
    if s.len() > 0 {
        lemma_exprs_view(s.drop_last());
    }
}

/// Viewing a sequence of statements keeps its length and views each element.
pub proof fn lemma_stmts_view(s: Seq<Stmt>)
    ensures
        stmts_view(s).len() == s.len(),
        forall|i: int| 0 <= i < s.len() ==> #[trigger] stmts_view(s)[i] == stmt_view(s[i]),
    decreases s.len(),
{
    if s.len() > 0 {
        lemma_stmts_view(s.drop_last());
    }
}

/// A size of an expression, used to show that checking terminates.
pub open spec fn expr_size(e: ExprV) -> nat
    decreases e,
{
    match e {
        ExprV::Binary { left, right, .. } => 1 + expr_size(*left) + expr_size(*right),
        ExprV::Call { callee, args } => 1 + expr_size(*callee) + exprs_size(args),
        ExprV::Unary { operand, .. } => 1 + expr_size(*operand),
        _ => 1,
    }
}

/// The total size of a sequence of expressions.
pub open spec fn exprs_size(s: Seq<ExprV>) -> nat
    decreases s,
{
    if s.len() == 0 {
        0
    } else {
        exprs_size(s.drop_last()) + expr_size(s.last())
    }
}

/// A size of a statement, used to show that checking terminates.
pub open spec fn stmt_size(s: StmtV) -> nat
    decreases s,
{
    match s {
        StmtV::Function { body, .. } => 1 + stmts_size(body),
        StmtV::If { then_block, else_block, .. } => 1 + stmts_size(then_block) + match else_block {
            Some(b) => stmts_size(b),
            None => 0,
        },
        StmtV::For { body, .. } => 1 + stmts_size(body),
        _ => 1,
    }
}

/// The total size of a sequence of statements.
pub open spec fn stmts_size(s: Seq<StmtV>) -> nat
    decreases s,
{
    if s.len() == 0 {
        0
    } else {
        stmts_size(s.drop_last()) + stmt_size(s.last())
    }
}

/// Every expression has a positive size.
pub proof fn lemma_expr_size_positive(e: ExprV)
    ensures
        expr_size(e) >= 1,
{
}

/// Every statement has a positive size.
pub proof fn lemma_stmt_size_positive(s: StmtV)
    ensures
        stmt_size(s) >= 1,
{
}


/// An element of a sequence of expressions is no larger than the whole sequence.
pub proof fn lemma_exprs_size_elem(s: Seq<ExprV>, i: int)
    requires
        0 <= i < s.len(),
    ensures
        expr_size(s[i]) <= exprs_size(s),
    decreases s.len(),
{
    if i < s.len() - 1 {
        lemma_exprs_size_elem(s.drop_last(), i);
        assert(s.drop_last()[i] == s[i]);
    }
}

/// A statement of a sequence is no larger than the whole sequence.
pub proof fn lemma_stmts_size_elem(s: Seq<StmtV>, i: int)
    requires
        0 <= i < s.len(),
    ensures
        stmt_size(s[i]) <= stmts_size(s),
    decreases s.len(),
{
    if i < s.len() - 1 {
        lemma_stmts_size_elem(s.drop_last(), i);
        assert(s.drop_last()[i] == s[i]);
    }
}

// ---------------------------------------------------------------------------------------------
// Copies

/// A copy of an expression.
pub fn clone_expr(e: &Expr) -> (r: Expr)
    ensures
        r@ == e@,
    decreases e,
{
    match e {
        Expr::Int(n) => Expr::Int(*n),
        Expr::Float(s) => Expr::Float(s.clone()),
        Expr::String(s) => Expr::String(s.clone()),
        Expr::Var(s) => Expr::Var(s.clone()),
        Expr::Bool(b) => Expr::Bool(*b),
        Expr::Binary { op, left, right } => Expr::Binary {
            op: *op,
            left: Box::new(clone_expr(&**left)),
            right: Box::new(clone_expr(&**right)),
        },
        Expr::Call { callee, args } => Expr::Call {
            callee: Box::new(clone_expr(&**callee)),
            args: clone_exprs(args),
        },
        Expr::Unary { op, operand } => Expr::Unary { op: *op, operand: Box::new(clone_expr(&**operand)) },
    }
}

/// A copy of a list of expressions.
pub fn clone_exprs(v: &Vec<Expr>) -> (r: Vec<Expr>)
    ensures
        exprs_view(r@) == exprs_view(v@),
    decreases v,
{
    let mut out: Vec<Expr> = Vec::new();
    let mut i: usize = 0;
    while i < v.len()
        invariant
            i <= v.len(),
            exprs_view(out@) == exprs_view(v@.take(i as int)),
        decreases v.len() - i,
    {
        proof {
            assert(decreases_to!(v => v@));
            assert(decreases_to!(v@ => v@[i as int]));
        }
        let c = clone_expr(&v[i]);
        let ghost before = out@;
        out.push(c);
        proof {
            assert(out@.drop_last() =~= before);
            assert(v@.take(i + 1).drop_last() =~= v@.take(i as int));
        }
        i = i + 1;
    }
    assert(v@.take(i as int) =~= v@);
    out
}

impl Clone for Expr {
    fn clone(&self) -> (r: Self)
        ensures
            r@ == self@,
    {
        clone_expr(self)
    }
}

/// A copy of a list of `(type, name)` pairs.
fn clone_pairs(v: &Vec<(String, String)>) -> (r: Vec<(String, String)>)
    ensures
        pairs_view(r@) == pairs_view(v@),
{
    let mut out: Vec<(String, String)> = Vec::new();
    let mut i: usize = 0;
    while i < v.len()
        invariant
            i <= v.len(),
            out.len() == i,
            forall|k: int| 0 <= k < i ==> (#[trigger] out@[k]).0@ == v@[k].0@ && out@[k].1@ == v@[k].1@,
        decreases v.len() - i,
    {
        out.push((v[i].0.clone(), v[i].1.clone()));
        i = i + 1;
    }
    assert(pairs_view(out@) =~= pairs_view(v@));
    out
}

/// A copy of a statement.
pub fn clone_stmt(st: &Stmt) -> (r: Stmt)
    ensures
        r@ == st@,
    decreases st,
{
    match st {
        Stmt::Let { var_type, name, value } => Stmt::Let {
            var_type: match var_type {
                Some(t) => Some(t.clone()),
                None => None,
            },
            name: name.clone(),
            value: clone_expr(value),
        },
        Stmt::Assign { name, value } => Stmt::Assign { name: name.clone(), value: clone_expr(value) },
        Stmt::Function { return_type, name, params, body } => Stmt::Function {
            return_type: return_type.clone(),
            name: name.clone(),
            params: clone_pairs(params),
            body: clone_stmts(body),
        },
        Stmt::If { condition, then_block, else_block } => Stmt::If {
            condition: clone_expr(condition),
            then_block: clone_stmts(then_block),
            else_block: match else_block {
                Some(b) => Some(clone_stmts(b)),
                None => None,
            },
        },
        Stmt::For { var_type, name, start, end, step, body } => Stmt::For {
            var_type: var_type.clone(),
            name: name.clone(),
            start: clone_expr(start),
            end: clone_expr(end),
            step: clone_expr(step),
            body: clone_stmts(body),
        },
        Stmt::Expr(e) => Stmt::Expr(clone_expr(e)),
        Stmt::Return(e) => Stmt::Return(
            match e {
                Some(x) => Some(clone_expr(x)),
                None => None,
            },
        ),
    }
}

/// A copy of a list of statements.
pub fn clone_stmts(v: &Vec<Stmt>) -> (r: Vec<Stmt>)
    ensures
        stmts_view(r@) == stmts_view(v@),
    decreases v,
{
    let mut out: Vec<Stmt> = Vec::new();
    let mut i: usize = 0;
    while i < v.len()
        invariant
            i <= v.len(),
            stmts_view(out@) == stmts_view(v@.take(i as int)),
        decreases v.len() - i,
    {
        proof {
            assert(decreases_to!(v => v@));
            assert(decreases_to!(v@ => v@[i as int]));
        }
        let c = clone_stmt(&v[i]);
        let ghost before = out@;
        out.push(c);
        proof {
            assert(out@.drop_last() =~= before);
            assert(v@.take(i + 1).drop_last() =~= v@.take(i as int));
        }
        i = i + 1;
    }
    assert(v@.take(i as int) =~= v@);
    out
}

impl Clone for Stmt {
    fn clone(&self) -> (r: Self)
        ensures
            r@ == self@,
    {
        clone_stmt(self)
    }
}

} // verus!
