//! The parser of No#: from tokens to statements.
//!
//! The grammar is read with ordered choice and backtracking: the first alternative that
//! succeeds wins, and a repetition stops at the first item that fails. When the program cannot
//! be read, the error is reported at the furthest token position at which any attempt failed.
use vstd::prelude::*;

use crate::lexer::tokens_view;
use crate::report::{drawable, render_diagnostic, report_holds};
use crate::syntax::{
    exprs_view, pairs_view, stmts_view, DiagnosticV, Expr, ExprV, Op, ParseDiagnostic, Stmt, StmtV, Token,
    TokenV,
};
use crate::text::{concat2, concat3, debug_str, i32_to_decimal, signed_decimal, str_debug_text};
use vstd::string::StringExecFns;

verus! {

/// The token at position `p`, if there is one.
pub open spec fn tok(t: Seq<TokenV>, p: int) -> Option<TokenV> {
    if 0 <= p < t.len() {
        Some(t[p])
    } else {
        None
    }
}

/// The furthest failure position after a failure at `p`.
pub open spec fn fail_at(far: int, p: int) -> int {
    if p > far {
        p
    } else {
        far
    }
}

/// A parse outcome: the value read and the position after it, or nothing; and the furthest
/// failure position seen so far.
pub type Outcome<T> = (Option<(T, int)>, int);

/// A type name: a built-in type keyword or an identifier.
pub open spec fn type_s(t: Seq<TokenV>, pos: int, far: int) -> Outcome<Seq<char>> {
    match tok(t, pos) {
        Some(TokenV::IntType) => (Some(("int"@, pos + 1)), far),
        Some(TokenV::FloatType) => (Some(("float"@, pos + 1)), far),
        Some(TokenV::StringType) => (Some(("string"@, pos + 1)), far),
        Some(TokenV::BoolType) => (Some(("bool"@, pos + 1)), far),
        Some(TokenV::VoidType) => (Some(("void"@, pos + 1)), far),
        Some(TokenV::Ident(s)) => (Some((s, pos + 1)), far),
        _ => (None, fail_at(far, pos)),
    }
}

/// An identifier.
pub open spec fn ident_s(t: Seq<TokenV>, pos: int, far: int) -> Outcome<Seq<char>> {
    match tok(t, pos) {
        Some(TokenV::Ident(s)) => (Some((s, pos + 1)), far),
        _ => (None, fail_at(far, pos)),
    }
}

/// Exactly the token `k`.
pub open spec fn expect_s(t: Seq<TokenV>, pos: int, far: int, k: TokenV) -> Outcome<()> {
    if tok(t, pos) == Some(k) {
        (Some(((), pos + 1)), far)
    } else {
        (None, fail_at(far, pos))
    }
}

/// The operator of a `+ - * /` token.
pub open spec fn math_op(k: Option<TokenV>) -> Option<Op> {
    match k {
        Some(TokenV::Plus) => Some(Op::Add),
        Some(TokenV::Minus) => Some(Op::Sub),
        Some(TokenV::Star) => Some(Op::Mul),
        Some(TokenV::Slash) => Some(Op::Div),
        _ => None,
    }
}

/// The operator of a comparison or `..` token.
pub open spec fn comparison_op(k: Option<TokenV>) -> Option<Op> {
    match k {
        Some(TokenV::Equal) => Some(Op::Equal),
        Some(TokenV::NotEqual) => Some(Op::NotEqual),
        Some(TokenV::LessOrEqual) => Some(Op::LessOrEqual),
        Some(TokenV::MoreOrEqual) => Some(Op::MoreOrEqual),
        Some(TokenV::LessThan) => Some(Op::LessThan),
        Some(TokenV::MoreThan) => Some(Op::MoreThan),
        Some(TokenV::Concat) => Some(Op::Concat),
        _ => None,
    }
}

/// The operator of an `and`, `or` or `not` token between two operands.
pub open spec fn logic_op(k: Option<TokenV>) -> Option<Op> {
    match k {
        Some(TokenV::And) => Some(Op::And),
        Some(TokenV::Or) => Some(Op::Or),
        Some(TokenV::Not) => Some(Op::Not),
        _ => None,
    }
}

/// The operator levels, from the loosest to the tightest.
#[derive(Clone, Copy)]
pub enum Level {
    Logic,
    Comparison,
    Math,
}

/// The operator that a token stands for at a level.
pub open spec fn level_op(lv: Level, k: Option<TokenV>) -> Option<Op> {
    match lv {
        Level::Logic => logic_op(k),
        Level::Comparison => comparison_op(k),
        Level::Math => math_op(k),
    }
}

/// An expression.
pub open spec fn expr_s(t: Seq<TokenV>, pos: int, far: int) -> Outcome<ExprV>
    decreases t.len() - pos, 20nat,
{
    if pos < 0 || pos > t.len() {
        (None, far)
    } else {
        level_s(t, Level::Logic, pos, far)
    }
}

/// An expression at an operator level: an operand followed by any number of
/// `operator operand` pairs of that level, grouped from the left.
pub open spec fn level_s(t: Seq<TokenV>, lv: Level, pos: int, far: int) -> Outcome<ExprV>
    decreases t.len() - pos, match lv {
        Level::Logic => 19nat,
        Level::Comparison => 16nat,
        Level::Math => 14nat,
    },
{
    if pos < 0 || pos > t.len() {
        (None, far)
    } else {
        let (r, f1) = operand_s(t, lv, pos, far);
        match r {
            None => (None, f1),
            Some((l, p)) => if pos < p <= t.len() {
                level_rest_s(t, lv, l, p, f1)
            } else {
                (None, f1)
            },
        }
    }
}

/// An operand at a level: a unary expression for the logic level, the next level otherwise.
pub open spec fn operand_s(t: Seq<TokenV>, lv: Level, pos: int, far: int) -> Outcome<ExprV>
    decreases t.len() - pos, match lv {
        Level::Logic => 18nat,
        Level::Comparison => 15nat,
        Level::Math => 13nat,
    },
{
    if pos < 0 || pos > t.len() {
        (None, far)
    } else {
        match lv {
            Level::Logic => unary_s(t, pos, far),
            Level::Comparison => level_s(t, Level::Math, pos, far),
            Level::Math => call_s(t, pos, far),
        }
    }
}

/// The `operator operand` pairs after a left operand at a level.
pub open spec fn level_rest_s(t: Seq<TokenV>, lv: Level, left: ExprV, p: int, far: int) -> Outcome<
    ExprV,
>
    decreases t.len() - p, 1nat,
{
    if p < 0 || p > t.len() {
        (None, far)
    } else {
        match level_op(lv, tok(t, p)) {
            None => (Some((left, p)), fail_at(far, p)),
            Some(op) => {
                let (r, f1) = operand_s(t, lv, p + 1, far);
                match r {
                    None => (Some((left, p)), f1),
                    Some((right, p2)) => if p < p2 <= t.len() {
                        level_rest_s(
                            t,
                            lv,
                            ExprV::Binary { op, left: Box::new(left), right: Box::new(right) },
                            p2,
                            f1,
                        )
                    } else {
                        (Some((left, p)), f1)
                    },
                }
            },
        }
    }
}

/// `not` followed by a comparison, else a comparison.
pub open spec fn unary_s(t: Seq<TokenV>, pos: int, far: int) -> Outcome<ExprV>
    decreases t.len() - pos, 17nat,
{
    if pos < 0 || pos > t.len() {
        (None, far)
    } else if tok(t, pos) == Some(TokenV::Not) {
        let (r, f1) = level_s(t, Level::Comparison, pos + 1, far);
        match r {
            Some((e, p)) => (Some((ExprV::Unary { op: Op::Not, operand: Box::new(e) }, p)), f1),
            None => level_s(t, Level::Comparison, pos, f1),
        }
    } else {
        level_s(t, Level::Comparison, pos, fail_at(far, pos))
    }
}

/// An atom followed by any number of parenthesized argument lists.
pub open spec fn call_s(t: Seq<TokenV>, pos: int, far: int) -> Outcome<ExprV>
    decreases t.len() - pos, 12nat,
{
    if pos < 0 || pos > t.len() {
        (None, far)
    } else {
        let (r, f1) = atom_s(t, pos, far);
        match r {
            None => (None, f1),
            Some((a, p)) => if pos < p <= t.len() {
                call_rest_s(t, a, p, f1)
            } else {
                (None, f1)
            },
        }
    }
}

/// The argument lists after a callee.
pub open spec fn call_rest_s(t: Seq<TokenV>, callee: ExprV, p: int, far: int) -> Outcome<ExprV>
    decreases t.len() - p, 3nat,
{
    if p < 0 || p > t.len() {
        (None, far)
    } else {
        let (r, f1) = arg_group_s(t, p, far);
        match r {
            None => (Some((callee, p)), f1),
            Some((args, p2)) => if p < p2 <= t.len() {
                call_rest_s(t, ExprV::Call { callee: Box::new(callee), args }, p2, f1)
            } else {
                (Some((callee, p)), f1)
            },
        }
    }
}

/// A parenthesized, comma-separated list of expressions.
pub open spec fn arg_group_s(t: Seq<TokenV>, p: int, far: int) -> Outcome<Seq<ExprV>>
    decreases t.len() - p, 2nat,
{
    if p < 0 || p > t.len() {
        (None, far)
    } else if tok(t, p) != Some(TokenV::LParen) {
        (None, fail_at(far, p))
    } else {
        let (r, f1) = sep_exprs_s(t, p + 1, far);
        match r {
            Some((args, q)) => if tok(t, q) == Some(TokenV::RParen) {
                (Some((args, q + 1)), f1)
            } else {
                (None, fail_at(f1, q))
            },
            None => (None, f1),
        }
    }
}

/// Expressions separated by commas, none at all included (this never fails).
pub open spec fn sep_exprs_s(t: Seq<TokenV>, p: int, far: int) -> Outcome<Seq<ExprV>>
    decreases t.len() - p, 21nat,
{
    if p < 0 || p > t.len() {
        (Some((Seq::empty(), p)), far)
    } else {
        let (r, f1) = expr_s(t, p, far);
        match r {
            None => (Some((Seq::empty(), p)), f1),
            Some((e, p1)) => if p < p1 <= t.len() {
                sep_exprs_rest_s(t, seq![e], p1, f1)
            } else {
                (Some((Seq::empty(), p)), f1)
            },
        }
    }
}

/// The `, expression` items after the first; a comma not followed by an expression is left
/// unread.
pub open spec fn sep_exprs_rest_s(t: Seq<TokenV>, items: Seq<ExprV>, p: int, far: int) -> Outcome<
    Seq<ExprV>,
>
    decreases t.len() - p, 1nat,
{
    if p < 0 || p > t.len() {
        (Some((items, p)), far)
    } else if tok(t, p) != Some(TokenV::Comma) {
        (Some((items, p)), fail_at(far, p))
    } else {
        let (r, f1) = expr_s(t, p + 1, far);
        match r {
            None => (Some((items, p)), f1),
            Some((e, p2)) => if p < p2 <= t.len() {
                sep_exprs_rest_s(t, items.push(e), p2, f1)
            } else {
                (Some((items, p)), f1)
            },
        }
    }
}

/// A literal, a name, or a parenthesized expression.
pub open spec fn atom_s(t: Seq<TokenV>, pos: int, far: int) -> Outcome<ExprV>
    decreases t.len() - pos, 11nat,
{
    if pos < 0 || pos > t.len() {
        (None, far)
    } else {
        match tok(t, pos) {
            Some(TokenV::Int(n)) => (Some((ExprV::Int(n), pos + 1)), far),
            Some(TokenV::Float(f)) => (Some((ExprV::Float(f), pos + 1)), fail_at(far, pos)),
            Some(TokenV::Str(s)) => (Some((ExprV::Str(s), pos + 1)), fail_at(far, pos)),
            Some(TokenV::True) => (Some((ExprV::Bool(true), pos + 1)), fail_at(far, pos)),
            Some(TokenV::False) => (Some((ExprV::Bool(false), pos + 1)), fail_at(far, pos)),
            Some(TokenV::Ident(s)) => (Some((ExprV::Var(s), pos + 1)), fail_at(far, pos)),
            Some(TokenV::LParen) => {
                let (r, f1) = expr_s(t, pos + 1, fail_at(far, pos));
                match r {
                    None => (None, f1),
                    Some((e, p)) => if tok(t, p) == Some(TokenV::RParen) {
                        (Some((e, p + 1)), f1)
                    } else {
                        (None, fail_at(f1, p))
                    },
                }
            },
            _ => (None, fail_at(far, pos)),
        }
    }
}

/// A function parameter: a type name followed by a name.
pub open spec fn param_s(t: Seq<TokenV>, pos: int, far: int) -> Outcome<(Seq<char>, Seq<char>)> {
    let (r1, f1) = type_s(t, pos, far);
    match r1 {
        None => (None, f1),
        Some((ty, p1)) => {
            let (r2, f2) = ident_s(t, p1, f1);
            match r2 {
                None => (None, f2),
                Some((name, p2)) => (Some(((ty, name), p2)), f2),
            }
        },
    }
}

/// The `, parameter` items after the first; a comma not followed by a parameter is left unread.
pub open spec fn params_rest_s(
    t: Seq<TokenV>,
    items: Seq<(Seq<char>, Seq<char>)>,
    p: int,
    far: int,
) -> Outcome<Seq<(Seq<char>, Seq<char>)>>
    decreases t.len() - p,
{
    if p < 0 || p > t.len() {
        (Some((items, p)), far)
    } else if tok(t, p) != Some(TokenV::Comma) {
        (Some((items, p)), fail_at(far, p))
    } else {
        let (r, f1) = param_s(t, p + 1, far);
        match r {
            None => (Some((items, p)), f1),
            Some((x, p2)) => if p < p2 <= t.len() {
                params_rest_s(t, items.push(x), p2, f1)
            } else {
                (Some((items, p)), f1)
            },
        }
    }
}

/// A parenthesized, comma-separated list of parameters, possibly empty.
pub open spec fn param_list_s(t: Seq<TokenV>, pos: int, far: int) -> Outcome<
    Seq<(Seq<char>, Seq<char>)>,
> {
    if tok(t, pos) != Some(TokenV::LParen) {
        (None, fail_at(far, pos))
    } else {
        let (r, f1) = param_s(t, pos + 1, far);
        let (items, q, f2) = match r {
            None => (Seq::empty(), pos + 1, f1),
            Some((x, p1)) => match params_rest_s(t, seq![x], p1, f1) {
                (Some((items, q)), f2) => (items, q, f2),
                (None, f2) => (seq![x], p1, f2),
            },
        };
        if tok(t, q) == Some(TokenV::RParen) {
            (Some((items, q + 1)), f2)
        } else {
            (None, fail_at(f2, q))
        }
    }
}

/// The statement chain that an `if` with `elseif` branches stands for: each `elseif` becomes
/// an `if` alone in the `else` block of the branch before it.
pub open spec fn build_else(elifs: Seq<(ExprV, Seq<StmtV>)>, last: Option<Seq<StmtV>>) -> Option<
    Seq<StmtV>,
>
    decreases elifs.len(),
{
    if elifs.len() == 0 {
        last
    } else {
        Some(
            seq![
                StmtV::If {
                    condition: elifs[0].0,
                    then_block: elifs[0].1,
                    else_block: build_else(elifs.drop_first(), last),
                },
            ],
        )
    }
}

/// A statement.
#[verifier::opaque]
pub open spec fn stmt_s(t: Seq<TokenV>, pos: int, far: int) -> Outcome<StmtV>
    decreases t.len() - pos, 40nat,
{
    if pos < 0 || pos > t.len() {
        (None, far)
    } else {
        let (r1, f1) = fn_stmt_s(t, pos, far);
        if r1 is Some {
            (r1, f1)
        } else {
            let (r2, f2) = typed_let_s(t, pos, f1);
            if r2 is Some {
                (r2, f2)
            } else {
                let (r3, f3) = let_s(t, pos, f2);
                if r3 is Some {
                    (r3, f3)
                } else {
                    let (r4, f4) = assign_s(t, pos, f3);
                    if r4 is Some {
                        (r4, f4)
                    } else {
                        let (r5, f5) = if_s(t, pos, f4);
                        if r5 is Some {
                            (r5, f5)
                        } else {
                            let (r6, f6) = return_s(t, pos, f5);
                            if r6 is Some {
                                (r6, f6)
                            } else {
                                let (r7, f7) = for_s(t, pos, f6);
                                if r7 is Some {
                                    (r7, f7)
                                } else {
                                    let (r8, f8) = expr_s(t, pos, f7);
                                    match r8 {
                                        Some((e, p)) => (Some((StmtV::Expr(e), p)), f8),
                                        None => (None, f8),
                                    }
                                }
                            }
                        }
                    }
                }
            }
        }
    }
}

/// `type name ( parameters ) { body }`.
#[verifier::opaque]
pub open spec fn fn_stmt_s(t: Seq<TokenV>, pos: int, far: int) -> Outcome<StmtV>
    decreases t.len() - pos, 39nat,
{
    if pos < 0 || pos > t.len() {
        (None, far)
    } else {
        let (r1, f1) = type_s(t, pos, far);
        match r1 {
            None => (None, f1),
            Some((rt, p1)) => {
                let (r2, f2) = ident_s(t, p1, f1);
                match r2 {
                    None => (None, f2),
                    Some((name, p2)) => {
                        let (r3, f3) = param_list_s(t, p2, f2);
                        match r3 {
                            None => (None, f3),
                            Some((params, p3)) => if pos < p3 <= t.len() {
                                let (r4, f4) = block_s(t, p3, f3);
                                match r4 {
                                    None => (None, f4),
                                    Some((body, p4)) => (
                                        Some(
                                            (
                                                StmtV::Function {
                                                    return_type: rt,
                                                    name,
                                                    params,
                                                    body,
                                                },
                                                p4,
                                            ),
                                        ),
                                        f4,
                                    ),
                                }
                            } else {
                                (None, f3)
                            },
                        }
                    },
                }
            },
        }
    }
}

/// `type name = expression`.
#[verifier::opaque]
pub open spec fn typed_let_s(t: Seq<TokenV>, pos: int, far: int) -> Outcome<StmtV>
    decreases t.len() - pos, 38nat,
{
    if pos < 0 || pos > t.len() {
        (None, far)
    } else {
        let (r1, f1) = type_s(t, pos, far);
        match r1 {
            None => (None, f1),
            Some((ty, p1)) => {
                let (r2, f2) = ident_s(t, p1, f1);
                match r2 {
                    None => (None, f2),
                    Some((name, p2)) => {
                        let (r3, f3) = expect_s(t, p2, f2, TokenV::Assign);
                        match r3 {
                            None => (None, f3),
                            Some((_, p3)) => {
                                let (r4, f4) = expr_s(t, p3, f3);
                                match r4 {
                                    None => (None, f4),
                                    Some((value, p4)) => (
                                        Some((StmtV::Let { var_type: Some(ty), name, value }, p4)),
                                        f4,
                                    ),
                                }
                            },
                        }
                    },
                }
            },
        }
    }
}

/// `auto name = expression`.
#[verifier::opaque]
pub open spec fn let_s(t: Seq<TokenV>, pos: int, far: int) -> Outcome<StmtV>
    decreases t.len() - pos, 38nat,
{
    if pos < 0 || pos > t.len() {
        (None, far)
    } else {
        let (r1, f1) = expect_s(t, pos, far, TokenV::Auto);
        match r1 {
            None => (None, f1),
            Some((_, p1)) => {
                let (r2, f2) = ident_s(t, p1, f1);
                match r2 {
                    None => (None, f2),
                    Some((name, p2)) => {
                        let (r3, f3) = expect_s(t, p2, f2, TokenV::Assign);
                        match r3 {
                            None => (None, f3),
                            Some((_, p3)) => {
                                let (r4, f4) = expr_s(t, p3, f3);
                                match r4 {
                                    None => (None, f4),
                                    Some((value, p4)) => (
                                        Some((StmtV::Let { var_type: None, name, value }, p4)),
                                        f4,
                                    ),
                                }
                            },
                        }
                    },
                }
            },
        }
    }
}

/// `name = expression`.
#[verifier::opaque]
pub open spec fn assign_s(t: Seq<TokenV>, pos: int, far: int) -> Outcome<StmtV>
    decreases t.len() - pos, 38nat,
{
    if pos < 0 || pos > t.len() {
        (None, far)
    } else {
        let (r1, f1) = ident_s(t, pos, far);
        match r1 {
            None => (None, f1),
            Some((name, p1)) => {
                let (r2, f2) = expect_s(t, p1, f1, TokenV::Assign);
                match r2 {
                    None => (None, f2),
                    Some((_, p2)) => {
                        let (r3, f3) = expr_s(t, p2, f2);
                        match r3 {
                            None => (None, f3),
                            Some((value, p3)) => (Some((StmtV::Assign { name, value }, p3)), f3),
                        }
                    },
                }
            },
        }
    }
}

/// `if condition { ... }`, then any `elseif condition { ... }` branches, then an optional
/// `else { ... }`.
#[verifier::opaque]
pub open spec fn if_s(t: Seq<TokenV>, pos: int, far: int) -> Outcome<StmtV>
    decreases t.len() - pos, 38nat,
{
    if pos < 0 || pos > t.len() || tok(t, pos) != Some(TokenV::If) {
        (None, fail_at(far, pos))
    } else {
        let (r1, f1) = expr_s(t, pos + 1, far);
        match r1 {
            None => (None, f1),
            Some((c, p1)) => if pos < p1 <= t.len() {
                let (r2, f2) = block_s(t, p1, f1);
                match r2 {
                    None => (None, f2),
                    Some((then_b, p2)) => if pos < p2 <= t.len() {
                        let (r3, f3) = elseifs_s(t, Seq::empty(), p2, f2);
                        match r3 {
                            Some((elifs, p3)) => if pos < p3 <= t.len() {
                                let (r4, f4) = else_opt_s(t, p3, f3);
                                match r4 {
                                    Some((last, p4)) => (
                                        Some(
                                            (
                                                StmtV::If {
                                                    condition: c,
                                                    then_block: then_b,
                                                    else_block: build_else(elifs, last),
                                                },
                                                p4,
                                            ),
                                        ),
                                        f4,
                                    ),
                                    None => (None, f4),
                                }
                            } else {
                                (None, f3)
                            },
                            None => (None, f3),
                        }
                    } else {
                        (None, f2)
                    },
                }
            } else {
                (None, f1)
            },
        }
    }
}

/// The `elseif condition { ... }` branches, as many as follow.
#[verifier::opaque]
pub open spec fn elseifs_s(
    t: Seq<TokenV>,
    acc: Seq<(ExprV, Seq<StmtV>)>,
    p: int,
    far: int,
) -> Outcome<Seq<(ExprV, Seq<StmtV>)>>
    decreases t.len() - p, 37nat,
{
    if p < 0 || p > t.len() {
        (Some((acc, p)), far)
    } else if tok(t, p) != Some(TokenV::Elseif) {
        (Some((acc, p)), fail_at(far, p))
    } else {
        let (r1, f1) = expr_s(t, p + 1, far);
        match r1 {
            None => (Some((acc, p)), f1),
            Some((c, p1)) => if p < p1 <= t.len() {
                let (r2, f2) = block_s(t, p1, f1);
                match r2 {
                    None => (Some((acc, p)), f2),
                    Some((b, p2)) => if p < p2 <= t.len() {
                        elseifs_s(t, acc.push((c, b)), p2, f2)
                    } else {
                        (Some((acc, p)), f2)
                    },
                }
            } else {
                (Some((acc, p)), f1)
            },
        }
    }
}

/// An optional `else { ... }`.
#[verifier::opaque]
pub open spec fn else_opt_s(t: Seq<TokenV>, p: int, far: int) -> Outcome<Option<Seq<StmtV>>>
    decreases t.len() - p, 37nat,
{
    if p < 0 || p > t.len() {
        (Some((None, p)), far)
    } else if tok(t, p) != Some(TokenV::Else) {
        (Some((None, p)), fail_at(far, p))
    } else {
        let (r, f1) = block_s(t, p + 1, far);
        match r {
            Some((b, q)) => (Some((Some(b), q)), f1),
            None => (Some((None, p)), f1),
        }
    }
}

/// `return`, with an optional expression.
#[verifier::opaque]
pub open spec fn return_s(t: Seq<TokenV>, pos: int, far: int) -> Outcome<StmtV>
    decreases t.len() - pos, 38nat,
{
    if pos < 0 || pos > t.len() || tok(t, pos) != Some(TokenV::Return) {
        (None, fail_at(far, pos))
    } else {
        let (r, f1) = expr_s(t, pos + 1, far);
        match r {
            Some((e, p)) => (Some((StmtV::Return(Some(e)), p)), f1),
            None => (Some((StmtV::Return(None), pos + 1)), f1),
        }
    }
}

/// `for type name = start, end, step { ... }`.
#[verifier::opaque]
pub open spec fn for_s(t: Seq<TokenV>, pos: int, far: int) -> Outcome<StmtV>
    decreases t.len() - pos, 38nat,
{
    if pos < 0 || pos > t.len() || tok(t, pos) != Some(TokenV::For) {
        (None, fail_at(far, pos))
    } else {
        let (r1, f1) = type_s(t, pos + 1, far);
        match r1 {
            None => (None, f1),
            Some((ty, p1)) => {
                let (r2, f2) = ident_s(t, p1, f1);
                match r2 {
                    None => (None, f2),
                    Some((name, p2)) => {
                        let (r3, f3) = expect_s(t, p2, f2, TokenV::Assign);
                        match r3 {
                            None => (None, f3),
                            Some((_, p3)) => for_tail_s(t, pos, ty, name, p3, f3),
                        }
                    },
                }
            },
        }
    }
}

/// The `start, end, step { ... }` of a `for` statement that began at `pos`.
#[verifier::opaque]
pub open spec fn for_tail_s(
    t: Seq<TokenV>,
    pos: int,
    ty: Seq<char>,
    name: Seq<char>,
    p: int,
    far: int,
) -> Outcome<StmtV>
    decreases t.len() - pos, 37nat,
{
    if pos < 0 || p <= pos || p > t.len() {
        (None, far)
    } else {
        let (r1, f1) = expr_s(t, p, far);
        match r1 {
            None => (None, f1),
            Some((start, p1)) => {
                let (r2, f2) = expect_s(t, p1, f1, TokenV::Comma);
                match r2 {
                    None => (None, f2),
                    Some((_, q1)) => {
                        let (r3, f3) = expr_s(t, q1, f2);
                        match r3 {
                            None => (None, f3),
                            Some((end, p3)) => {
                                let (r4, f4) = expect_s(t, p3, f3, TokenV::Comma);
                                match r4 {
                                    None => (None, f4),
                                    Some((_, q3)) => {
                                        let (r5, f5) = expr_s(t, q3, f4);
                                        match r5 {
                                            None => (None, f5),
                                            Some((step, p5)) => if pos < p5 <= t.len() {
                                                let (r6, f6) = block_s(t, p5, f5);
                                                match r6 {
                                                    None => (None, f6),
                                                    Some((body, p6)) => (
                                                        Some(
                                                            (
                                                                StmtV::For {
                                                                    var_type: ty,
                                                                    name,
                                                                    start,
                                                                    end,
                                                                    step,
                                                                    body,
                                                                },
                                                                p6,
                                                            ),
                                                        ),
                                                        f6,
                                                    ),
                                                }
                                            } else {
                                                (None, f5)
                                            },
                                        }
                                    },
                                }
                            },
                        }
                    },
                }
            },
        }
    }
}

/// `{`, any number of statements, `}`.
#[verifier::opaque]
pub open spec fn block_s(t: Seq<TokenV>, p: int, far: int) -> Outcome<Seq<StmtV>>
    decreases t.len() - p, 36nat,
{
    if p < 0 || p > t.len() || tok(t, p) != Some(TokenV::LBrace) {
        (None, fail_at(far, p))
    } else {
        let (r, f1) = stmts_s(t, Seq::empty(), p + 1, far);
        match r {
            Some((body, q)) => if tok(t, q) == Some(TokenV::RBrace) {
                (Some((body, q + 1)), f1)
            } else {
                (None, fail_at(f1, q))
            },
            None => (None, f1),
        }
    }
}

/// As many statements as can be read, appended to `acc` (this never fails).
#[verifier::opaque]
pub open spec fn stmts_s(t: Seq<TokenV>, acc: Seq<StmtV>, p: int, far: int) -> Outcome<
    Seq<StmtV>,
>
    decreases t.len() - p, 41nat,
{
    if p < 0 || p > t.len() {
        (Some((acc, p)), far)
    } else {
        let (r, f1) = stmt_s(t, p, far);
        match r {
            None => (Some((acc, p)), f1),
            Some((s, p1)) => if p < p1 <= t.len() {
                stmts_s(t, acc.push(s), p1, f1)
            } else {
                (Some((acc, p)), f1)
            },
        }
    }
}

/// What parsing a whole token sequence gives: the statements, or the token position of the
/// syntax error (the length of the sequence for an unexpected end of input).
pub open spec fn parse_s(t: Seq<TokenV>) -> Result<Seq<StmtV>, int> {
    let (r, f) = stmts_s(t, Seq::empty(), 0, 0);
    match r {
        Some((s, p)) => if p == t.len() {
            Ok(s)
        } else {
            Err(fail_at(f, p))
        },
        None => Err(f),
    }
}

// ---------------------------------------------------------------------------------------------
// The executable parser. Each function reads what its namesake above describes, from the
// position and with the furthest failure position it is given.

/// The view of a token slice.
pub open spec fn tv(t: &[Token]) -> Seq<TokenV> {
    tokens_view(t@)
}

/// Whether an executable parse outcome read something that ends after `lo` and within `hi`.
pub open spec fn ends_in<A>(r: (Option<(A, usize)>, usize), lo: int, hi: int) -> bool {
    match r.0 {
        Some((_, p)) => lo < p <= hi,
        None => true,
    }
}

/// The view of an executable expression outcome.
pub open spec fn out_expr(r: (Option<(Expr, usize)>, usize)) -> Outcome<ExprV> {
    (
        match r.0 {
            Some((e, p)) => Some((e@, p as int)),
            None => None,
        },
        r.1 as int,
    )
}

/// The view of an executable outcome holding a list of expressions.
pub open spec fn out_exprs(r: (Option<(Vec<Expr>, usize)>, usize)) -> Outcome<Seq<ExprV>> {
    (
        match r.0 {
            Some((v, p)) => Some((exprs_view(v@), p as int)),
            None => None,
        },
        r.1 as int,
    )
}

fn fail(far: usize, p: usize) -> (r: usize)
    ensures
        r == fail_at(far as int, p as int),
{
    if p > far {
        p
    } else {
        far
    }
}

fn level_op_x(lv: Level, t: &[Token], p: usize) -> (r: Option<Op>)
    ensures
        r == level_op(lv, tok(tv(t), p as int)),
{
    if p >= t.len() {
        return None;
    }
    match lv {
        Level::Logic => match &t[p] {
            Token::And => Some(Op::And),
            Token::Or => Some(Op::Or),
            Token::Not => Some(Op::Not),
            _ => None,
        },
        Level::Comparison => match &t[p] {
            Token::Equal => Some(Op::Equal),
            Token::NotEqual => Some(Op::NotEqual),
            Token::LessOrEqual => Some(Op::LessOrEqual),
            Token::MoreOrEqual => Some(Op::MoreOrEqual),
            Token::LessThan => Some(Op::LessThan),
            Token::MoreThan => Some(Op::MoreThan),
            Token::Concat => Some(Op::Concat),
            _ => None,
        },
        Level::Math => match &t[p] {
            Token::Plus => Some(Op::Add),
            Token::Minus => Some(Op::Sub),
            Token::Star => Some(Op::Mul),
            Token::Slash => Some(Op::Div),
            _ => None,
        },
    }
}

#[verifier::spinoff_prover]
fn expr_x(t: &[Token], pos: usize, far: usize) -> (r: (Option<(Expr, usize)>, usize))
    requires
        pos <= t.len(),
        far <= t.len(),
    ensures
        out_expr(r) == expr_s(tv(t), pos as int, far as int),
        ends_in(r, pos as int, t.len() as int),
        r.1 <= t.len(),
    decreases t.len() - pos, 20nat,
{
    level_x(t, Level::Logic, pos, far)
}

#[verifier::spinoff_prover]
fn level_x(t: &[Token], lv: Level, pos: usize, far: usize) -> (r: (Option<(Expr, usize)>, usize))
    requires
        pos <= t.len(),
        far <= t.len(),
    ensures
        out_expr(r) == level_s(tv(t), lv, pos as int, far as int),
        ends_in(r, pos as int, t.len() as int),
        r.1 <= t.len(),
    decreases t.len() - pos, match lv {
        Level::Logic => 19nat,
        Level::Comparison => 16nat,
        Level::Math => 14nat,
    },
{
    let (r, f1) = operand_x(t, lv, pos, far);
    match r {
        None => (None, f1),
        Some((l, p)) => level_rest_x(t, lv, l, p, f1),
    }
}

#[verifier::spinoff_prover]
fn operand_x(t: &[Token], lv: Level, pos: usize, far: usize) -> (r: (Option<(Expr, usize)>, usize))
    requires
        pos <= t.len(),
        far <= t.len(),
    ensures
        out_expr(r) == operand_s(tv(t), lv, pos as int, far as int),
        ends_in(r, pos as int, t.len() as int),
        r.1 <= t.len(),
    decreases t.len() - pos, match lv {
        Level::Logic => 18nat,
        Level::Comparison => 15nat,
        Level::Math => 13nat,
    },
{
    match lv {
        Level::Logic => unary_x(t, pos, far),
        Level::Comparison => level_x(t, Level::Math, pos, far),
        Level::Math => call_x(t, pos, far),
    }
}

#[verifier::spinoff_prover]
fn level_rest_x(t: &[Token], lv: Level, left: Expr, p: usize, far: usize) -> (r: (
    Option<(Expr, usize)>,
    usize,
))
    requires
        p <= t.len(),
        far <= t.len(),
    ensures
        out_expr(r) == level_rest_s(tv(t), lv, left@, p as int, far as int),
        r.0 is Some,
        ends_in(r, p - 1, t.len() as int),
        r.1 <= t.len(),
    decreases t.len() - p, 1nat,
{
    match level_op_x(lv, t, p) {
        None => (Some((left, p)), fail(far, p)),
        Some(op) => {
            if p + 1 > t.len() {
                proof {
                    assert(tok(tv(t), p as int) is None);
                }
                return (Some((left, p)), fail(far, p));
            }
            let (r, f1) = operand_x(t, lv, p + 1, far);
            match r {
                None => (Some((left, p)), f1),
                Some((right, p2)) => level_rest_x(
                    t,
                    lv,
                    Expr::Binary { op, left: Box::new(left), right: Box::new(right) },
                    p2,
                    f1,
                ),
            }
        },
    }
}

#[verifier::spinoff_prover]
fn unary_x(t: &[Token], pos: usize, far: usize) -> (r: (Option<(Expr, usize)>, usize))
    requires
        pos <= t.len(),
        far <= t.len(),
    ensures
        out_expr(r) == unary_s(tv(t), pos as int, far as int),
        ends_in(r, pos as int, t.len() as int),
        r.1 <= t.len(),
    decreases t.len() - pos, 17nat,
{
    if pos < t.len() && matches!(t[pos], Token::Not) {
        let (r, f1) = level_x(t, Level::Comparison, pos + 1, far);
        match r {
            Some((e, p)) => (Some((Expr::Unary { op: Op::Not, operand: Box::new(e) }, p)), f1),
            None => level_x(t, Level::Comparison, pos, f1),
        }
    } else {
        level_x(t, Level::Comparison, pos, fail(far, pos))
    }
}

#[verifier::spinoff_prover]
fn call_x(t: &[Token], pos: usize, far: usize) -> (r: (Option<(Expr, usize)>, usize))
    requires
        pos <= t.len(),
        far <= t.len(),
    ensures
        out_expr(r) == call_s(tv(t), pos as int, far as int),
        ends_in(r, pos as int, t.len() as int),
        r.1 <= t.len(),
    decreases t.len() - pos, 12nat,
{
    let (r, f1) = atom_x(t, pos, far);
    match r {
        None => (None, f1),
        Some((a, p)) => call_rest_x(t, a, p, f1),
    }
}

#[verifier::spinoff_prover]
fn call_rest_x(t: &[Token], callee: Expr, p: usize, far: usize) -> (r: (
    Option<(Expr, usize)>,
    usize,
))
    requires
        p <= t.len(),
        far <= t.len(),
    ensures
        out_expr(r) == call_rest_s(tv(t), callee@, p as int, far as int),
        r.0 is Some,
        ends_in(r, p - 1, t.len() as int),
        r.1 <= t.len(),
    decreases t.len() - p, 3nat,
{
    let (r, f1) = arg_group_x(t, p, far);
    match r {
        None => (Some((callee, p)), f1),
        Some((args, p2)) => call_rest_x(
            t,
            Expr::Call { callee: Box::new(callee), args },
            p2,
            f1,
        ),
    }
}

#[verifier::spinoff_prover]
fn arg_group_x(t: &[Token], p: usize, far: usize) -> (r: (Option<(Vec<Expr>, usize)>, usize))
    requires
        p <= t.len(),
        far <= t.len(),
    ensures
        out_exprs(r) == arg_group_s(tv(t), p as int, far as int),
        ends_in(r, p as int, t.len() as int),
        r.1 <= t.len(),
    decreases t.len() - p, 2nat,
{
    if !(p < t.len() && matches!(t[p], Token::LParen)) {
        return (None, fail(far, p));
    }
    let (r, f1) = sep_exprs_x(t, p + 1, far);
    match r {
        Some((args, q)) => {
            if q < t.len() && matches!(t[q], Token::RParen) {
                (Some((args, q + 1)), f1)
            } else {
                (None, fail(f1, q))
            }
        },
        None => (None, f1),
    }
}

#[verifier::spinoff_prover]
fn sep_exprs_x(t: &[Token], p: usize, far: usize) -> (r: (Option<(Vec<Expr>, usize)>, usize))
    requires
        p <= t.len(),
        far <= t.len(),
    ensures
        out_exprs(r) == sep_exprs_s(tv(t), p as int, far as int),
        r.0 is Some,
        ends_in(r, p - 1, t.len() as int),
        r.1 <= t.len(),
    decreases t.len() - p, 21nat,
{
    let (r, f1) = expr_x(t, p, far);
    match r {
        None => (Some((Vec::new(), p)), f1),
        Some((e, p1)) => {
            let ghost ev = e@;
            let mut items = Vec::new();
            items.push(e);
            proof {
                assert(items@.drop_last() =~= Seq::<Expr>::empty());
                assert(exprs_view(Seq::<Expr>::empty()) =~= Seq::<ExprV>::empty());
                assert(exprs_view(items@) =~= seq![ev]);
            }
            sep_exprs_rest_x(t, items, p1, f1)
        },
    }
}

#[verifier::spinoff_prover]
fn sep_exprs_rest_x(t: &[Token], items: Vec<Expr>, p: usize, far: usize) -> (r: (
    Option<(Vec<Expr>, usize)>,
    usize,
))
    requires
        p <= t.len(),
        far <= t.len(),
    ensures
        out_exprs(r) == sep_exprs_rest_s(tv(t), exprs_view(items@), p as int, far as int),
        r.0 is Some,
        ends_in(r, p - 1, t.len() as int),
        r.1 <= t.len(),
    decreases t.len() - p, 1nat,
{
    if !(p < t.len() && matches!(t[p], Token::Comma)) {
        return (Some((items, p)), fail(far, p));
    }
    let (r, f1) = expr_x(t, p + 1, far);
    match r {
        None => (Some((items, p)), f1),
        Some((e, p2)) => {
            let ghost before = items@;
            let ghost ev = e@;
            let mut items = items;
            items.push(e);
            proof {
                assert(items@.drop_last() =~= before);
                assert(exprs_view(items@) =~= exprs_view(before).push(ev));
            }
            sep_exprs_rest_x(t, items, p2, f1)
        },
    }
}

#[verifier::spinoff_prover]
fn atom_x(t: &[Token], pos: usize, far: usize) -> (r: (Option<(Expr, usize)>, usize))
    requires
        pos <= t.len(),
        far <= t.len(),
    ensures
        out_expr(r) == atom_s(tv(t), pos as int, far as int),
        ends_in(r, pos as int, t.len() as int),
        r.1 <= t.len(),
    decreases t.len() - pos, 11nat,
{
    if pos >= t.len() {
        return (None, fail(far, pos));
    }
    match &t[pos] {
        Token::Int(n) => (Some((Expr::Int(*n), pos + 1)), far),
        Token::Float(s) => (Some((Expr::Float(s.clone()), pos + 1)), fail(far, pos)),
        Token::String(s) => (Some((Expr::String(s.clone()), pos + 1)), fail(far, pos)),
        Token::True => (Some((Expr::Bool(true), pos + 1)), fail(far, pos)),
        Token::False => (Some((Expr::Bool(false), pos + 1)), fail(far, pos)),
        Token::Ident(s) => (Some((Expr::Var(s.clone()), pos + 1)), fail(far, pos)),
        Token::LParen => {
            let (r, f1) = expr_x(t, pos + 1, fail(far, pos));
            match r {
                None => (None, f1),
                Some((e, p)) => {
                    if p < t.len() && matches!(t[p], Token::RParen) {
                        (Some((e, p + 1)), f1)
                    } else {
                        (None, fail(f1, p))
                    }
                },
            }
        },
        _ => (None, fail(far, pos)),
    }
}

/// The view of an executable outcome holding a text.
pub open spec fn out_text(r: (Option<(String, usize)>, usize)) -> Outcome<Seq<char>> {
    (
        match r.0 {
            Some((x, p)) => Some((x@, p as int)),
            None => None,
        },
        r.1 as int,
    )
}

/// The view of an executable outcome holding a statement.
pub open spec fn out_stmt(r: (Option<(Stmt, usize)>, usize)) -> Outcome<StmtV> {
    (
        match r.0 {
            Some((x, p)) => Some((x@, p as int)),
            None => None,
        },
        r.1 as int,
    )
}

/// The view of an executable outcome holding a list of statements.
pub open spec fn out_stmts(r: (Option<(Vec<Stmt>, usize)>, usize)) -> Outcome<Seq<StmtV>> {
    (
        match r.0 {
            Some((v, p)) => Some((stmts_view(v@), p as int)),
            None => None,
        },
        r.1 as int,
    )
}

/// The view of an executable outcome holding a parameter.
pub open spec fn out_param(r: (Option<((String, String), usize)>, usize)) -> Outcome<
    (Seq<char>, Seq<char>),
> {
    (
        match r.0 {
            Some((x, p)) => Some(((x.0@, x.1@), p as int)),
            None => None,
        },
        r.1 as int,
    )
}

/// The view of an executable outcome holding a parameter list.
pub open spec fn out_params(r: (Option<(Vec<(String, String)>, usize)>, usize)) -> Outcome<
    Seq<(Seq<char>, Seq<char>)>,
> {
    (
        match r.0 {
            Some((v, p)) => Some((pairs_view(v@), p as int)),
            None => None,
        },
        r.1 as int,
    )
}

/// The view of `elseif` branches.
pub open spec fn elifs_view(v: Seq<(Expr, Vec<Stmt>)>) -> Seq<(ExprV, Seq<StmtV>)> {
    v.map_values(|x: (Expr, Vec<Stmt>)| (x.0@, stmts_view(x.1@)))
}

/// The view of an optional block.
pub open spec fn opt_block_view(o: Option<Vec<Stmt>>) -> Option<Seq<StmtV>> {
    match o {
        Some(b) => Some(stmts_view(b@)),
        None => None,
    }
}

/// The view of an executable outcome holding `elseif` branches.
pub open spec fn out_elifs(r: (Option<(Vec<(Expr, Vec<Stmt>)>, usize)>, usize)) -> Outcome<
    Seq<(ExprV, Seq<StmtV>)>,
> {
    (
        match r.0 {
            Some((v, p)) => Some((elifs_view(v@), p as int)),
            None => None,
        },
        r.1 as int,
    )
}

/// The view of an executable outcome holding an optional block.
pub open spec fn out_else(r: (Option<(Option<Vec<Stmt>>, usize)>, usize)) -> Outcome<
    Option<Seq<StmtV>>,
> {
    (
        match r.0 {
            Some((o, p)) => Some((opt_block_view(o), p as int)),
            None => None,
        },
        r.1 as int,
    )
}

/// Viewing a sequence of statements with one more at the end views that one at the end.
proof fn lemma_stmts_view_push(s: Seq<Stmt>, x: Stmt)
    ensures
        stmts_view(s.push(x)) == stmts_view(s).push(x@),
{
    assert(s.push(x).drop_last() =~= s);
}

/// An `elseif` added at the end of the chain nests in the `else` of the one before it.
proof fn lemma_build_else_push(
    elifs: Seq<(ExprV, Seq<StmtV>)>,
    x: (ExprV, Seq<StmtV>),
    last: Option<Seq<StmtV>>,
)
    ensures
        build_else(elifs.push(x), last) == build_else(
            elifs,
            Some(seq![StmtV::If { condition: x.0, then_block: x.1, else_block: last }]),
        ),
    decreases elifs.len(),
{
    let inner = Some(seq![StmtV::If { condition: x.0, then_block: x.1, else_block: last }]);
    if elifs.len() > 0 {
        lemma_build_else_push(elifs.drop_first(), x, last);
        assert(elifs.push(x).drop_first() =~= elifs.drop_first().push(x));
        assert(elifs.push(x)[0] == elifs[0]);
    } else {
        assert(elifs.push(x).drop_first() =~= Seq::<(ExprV, Seq<StmtV>)>::empty());
        assert(build_else(Seq::empty(), last) == last);
        assert(build_else(Seq::empty(), inner) == inner);
        assert(elifs.push(x)[0] == x);
    }
}

#[verifier::spinoff_prover]
fn type_x(t: &[Token], pos: usize, far: usize) -> (r: (Option<(String, usize)>, usize))
    requires
        pos <= t.len(),
        far <= t.len(),
    ensures
        out_text(r) == type_s(tv(t), pos as int, far as int),
        ends_in(r, pos as int, t.len() as int),
        r.1 <= t.len(),
{
    if pos >= t.len() {
        return (None, fail(far, pos));
    }
    match &t[pos] {
        Token::IntType => (Some((String::from_str("int"), pos + 1)), far),
        Token::FloatType => (Some((String::from_str("float"), pos + 1)), far),
        Token::StringType => (Some((String::from_str("string"), pos + 1)), far),
        Token::BoolType => (Some((String::from_str("bool"), pos + 1)), far),
        Token::VoidType => (Some((String::from_str("void"), pos + 1)), far),
        Token::Ident(s) => (Some((s.clone(), pos + 1)), far),
        _ => (None, fail(far, pos)),
    }
}

#[verifier::spinoff_prover]
fn ident_x(t: &[Token], pos: usize, far: usize) -> (r: (Option<(String, usize)>, usize))
    requires
        pos <= t.len(),
        far <= t.len(),
    ensures
        out_text(r) == ident_s(tv(t), pos as int, far as int),
        ends_in(r, pos as int, t.len() as int),
        r.1 <= t.len(),
{
    if pos < t.len() {
        if let Token::Ident(s) = &t[pos] {
            return (Some((s.clone(), pos + 1)), far);
        }
    }
    (None, fail(far, pos))
}

#[verifier::spinoff_prover]
fn param_x(t: &[Token], pos: usize, far: usize) -> (r: (Option<((String, String), usize)>, usize))
    requires
        pos <= t.len(),
        far <= t.len(),
    ensures
        out_param(r) == param_s(tv(t), pos as int, far as int),
        ends_in(r, pos as int, t.len() as int),
        r.1 <= t.len(),
{
    let (r1, f1) = type_x(t, pos, far);
    match r1 {
        None => (None, f1),
        Some((ty, p1)) => {
            let (r2, f2) = ident_x(t, p1, f1);
            match r2 {
                None => (None, f2),
                Some((name, p2)) => (Some(((ty, name), p2)), f2),
            }
        },
    }
}

#[verifier::spinoff_prover]
fn params_rest_x(t: &[Token], items: Vec<(String, String)>, p: usize, far: usize) -> (r: (
    Option<(Vec<(String, String)>, usize)>,
    usize,
))
    requires
        p <= t.len(),
        far <= t.len(),
    ensures
        out_params(r) == params_rest_s(tv(t), pairs_view(items@), p as int, far as int),
        r.0 is Some,
        ends_in(r, p - 1, t.len() as int),
        r.1 <= t.len(),
    decreases t.len() - p,
{
    if !(p < t.len() && matches!(t[p], Token::Comma)) {
        return (Some((items, p)), fail(far, p));
    }
    let (r, f1) = param_x(t, p + 1, far);
    match r {
        None => (Some((items, p)), f1),
        Some((x, p2)) => {
            let ghost before = items@;
            let ghost xv = (x.0@, x.1@);
            let mut items = items;
            items.push(x);
            proof {
                assert(pairs_view(items@) =~= pairs_view(before).push(xv));
            }
            params_rest_x(t, items, p2, f1)
        },
    }
}

#[verifier::spinoff_prover]
fn param_list_x(t: &[Token], pos: usize, far: usize) -> (r: (
    Option<(Vec<(String, String)>, usize)>,
    usize,
))
    requires
        pos <= t.len(),
        far <= t.len(),
    ensures
        out_params(r) == param_list_s(tv(t), pos as int, far as int),
        ends_in(r, pos as int, t.len() as int),
        r.1 <= t.len(),
{
    if !(pos < t.len() && matches!(t[pos], Token::LParen)) {
        return (None, fail(far, pos));
    }
    let (r, f1) = param_x(t, pos + 1, far);
    let (items, q, f2) = match r {
        None => {
            let none: Vec<(String, String)> = Vec::new();
            proof {
                assert(pairs_view(none@) =~= Seq::empty());
            }
            (none, pos + 1, f1)
        },
        Some((x, p1)) => {
            let ghost xv = (x.0@, x.1@);
            let mut first = Vec::new();
            first.push(x);
            proof {
                assert(pairs_view(first@) =~= seq![xv]);
            }
            let (r2, f2) = params_rest_x(t, first, p1, f1);
            match r2 {
                Some((items, q)) => (items, q, f2),
                None => {
                    proof {
                        assert(false);
                    }
                    (Vec::new(), p1, f2)
                },
            }
        },
    };
    if q < t.len() && matches!(t[q], Token::RParen) {
        (Some((items, q + 1)), f2)
    } else {
        (None, fail(f2, q))
    }
}

#[verifier::spinoff_prover]
fn stmt_x(t: &[Token], pos: usize, far: usize) -> (r: (Option<(Stmt, usize)>, usize))
    requires
        pos <= t.len(),
        far <= t.len(),
    ensures
        out_stmt(r) == stmt_s(tv(t), pos as int, far as int),
        ends_in(r, pos as int, t.len() as int),
        r.1 <= t.len(),
    decreases t.len() - pos, 40nat,
{
    reveal_with_fuel(stmt_s, 1);
    let r1 = fn_stmt_x(t, pos, far);
    if r1.0.is_some() {
        return r1;
    }
    let r2 = typed_let_x(t, pos, r1.1);
    if r2.0.is_some() {
        return r2;
    }
    let r3 = let_x(t, pos, r2.1);
    if r3.0.is_some() {
        return r3;
    }
    let r4 = assign_x(t, pos, r3.1);
    if r4.0.is_some() {
        return r4;
    }
    let r5 = if_x(t, pos, r4.1);
    if r5.0.is_some() {
        return r5;
    }
    let r6 = return_x(t, pos, r5.1);
    if r6.0.is_some() {
        return r6;
    }
    let r7 = for_x(t, pos, r6.1);
    if r7.0.is_some() {
        return r7;
    }
    let (r8, f8) = expr_x(t, pos, r7.1);
    match r8 {
        Some((e, p)) => (Some((Stmt::Expr(e), p)), f8),
        None => (None, f8),
    }
}

#[verifier::spinoff_prover]
fn fn_stmt_x(t: &[Token], pos: usize, far: usize) -> (r: (Option<(Stmt, usize)>, usize))
    requires
        pos <= t.len(),
        far <= t.len(),
    ensures
        out_stmt(r) == fn_stmt_s(tv(t), pos as int, far as int),
        ends_in(r, pos as int, t.len() as int),
        r.1 <= t.len(),
    decreases t.len() - pos, 39nat,
{
    reveal_with_fuel(fn_stmt_s, 1);
    let (r1, f1) = type_x(t, pos, far);
    let (return_type, p1) = match r1 {
        None => return (None, f1),
        Some(x) => x,
    };
    let (r2, f2) = ident_x(t, p1, f1);
    let (name, p2) = match r2 {
        None => return (None, f2),
        Some(x) => x,
    };
    let (r3, f3) = param_list_x(t, p2, f2);
    let (params, p3) = match r3 {
        None => return (None, f3),
        Some(x) => x,
    };
    let (r4, f4) = block_x(t, p3, f3);
    match r4 {
        None => (None, f4),
        Some((body, p4)) => (Some((Stmt::Function { return_type, name, params, body }, p4)), f4),
    }
}

#[verifier::spinoff_prover]
fn typed_let_x(t: &[Token], pos: usize, far: usize) -> (r: (Option<(Stmt, usize)>, usize))
    requires
        pos <= t.len(),
        far <= t.len(),
    ensures
        out_stmt(r) == typed_let_s(tv(t), pos as int, far as int),
        ends_in(r, pos as int, t.len() as int),
        r.1 <= t.len(),
    decreases t.len() - pos, 38nat,
{
    reveal_with_fuel(typed_let_s, 1);
    let (r1, f1) = type_x(t, pos, far);
    let (ty, p1) = match r1 {
        None => return (None, f1),
        Some(x) => x,
    };
    let (r2, f2) = ident_x(t, p1, f1);
    let (name, p2) = match r2 {
        None => return (None, f2),
        Some(x) => x,
    };
    if !(p2 < t.len() && matches!(t[p2], Token::Assign)) {
        return (None, fail(f2, p2));
    }
    let (r4, f4) = expr_x(t, p2 + 1, f2);
    match r4 {
        None => (None, f4),
        Some((value, p4)) => (Some((Stmt::Let { var_type: Some(ty), name, value }, p4)), f4),
    }
}

#[verifier::spinoff_prover]
fn let_x(t: &[Token], pos: usize, far: usize) -> (r: (Option<(Stmt, usize)>, usize))
    requires
        pos <= t.len(),
        far <= t.len(),
    ensures
        out_stmt(r) == let_s(tv(t), pos as int, far as int),
        ends_in(r, pos as int, t.len() as int),
        r.1 <= t.len(),
    decreases t.len() - pos, 38nat,
{
    reveal_with_fuel(let_s, 1);
    if !(pos < t.len() && matches!(t[pos], Token::Auto)) {
        return (None, fail(far, pos));
    }
    let (r2, f2) = ident_x(t, pos + 1, far);
    let (name, p2) = match r2 {
        None => return (None, f2),
        Some(x) => x,
    };
    if !(p2 < t.len() && matches!(t[p2], Token::Assign)) {
        return (None, fail(f2, p2));
    }
    let (r4, f4) = expr_x(t, p2 + 1, f2);
    match r4 {
        None => (None, f4),
        Some((value, p4)) => (Some((Stmt::Let { var_type: None, name, value }, p4)), f4),
    }
}

#[verifier::spinoff_prover]
fn assign_x(t: &[Token], pos: usize, far: usize) -> (r: (Option<(Stmt, usize)>, usize))
    requires
        pos <= t.len(),
        far <= t.len(),
    ensures
        out_stmt(r) == assign_s(tv(t), pos as int, far as int),
        ends_in(r, pos as int, t.len() as int),
        r.1 <= t.len(),
    decreases t.len() - pos, 38nat,
{
    reveal_with_fuel(assign_s, 1);
    let (r1, f1) = ident_x(t, pos, far);
    let (name, p1) = match r1 {
        None => return (None, f1),
        Some(x) => x,
    };
    if !(p1 < t.len() && matches!(t[p1], Token::Assign)) {
        return (None, fail(f1, p1));
    }
    let (r3, f3) = expr_x(t, p1 + 1, f1);
    match r3 {
        None => (None, f3),
        Some((value, p3)) => (Some((Stmt::Assign { name, value }, p3)), f3),
    }
}

#[verifier::spinoff_prover]
fn build_else_x(elifs: Vec<(Expr, Vec<Stmt>)>, last: Option<Vec<Stmt>>) -> (r: Option<Vec<Stmt>>)
    ensures
        opt_block_view(r) == build_else(elifs_view(elifs@), opt_block_view(last)),
{
    let ghost whole = elifs_view(elifs@);
    let ghost last_v = opt_block_view(last);
    let mut rest = elifs;
    let mut current = last;
    while rest.len() > 0
        invariant
            build_else(whole, last_v) == build_else(elifs_view(rest@), opt_block_view(current)),
        decreases rest.len(),
    {
        let ghost before = rest@;
        let (condition, then_block) = rest.pop().unwrap();
        let ghost xv = (condition@, stmts_view(then_block@));
        let ghost cur_v = opt_block_view(current);
        proof {
            assert(before =~= rest@.push((condition, then_block)));
            assert(elifs_view(before) =~= elifs_view(rest@).push(xv));
            lemma_build_else_push(elifs_view(rest@), xv, cur_v);
        }
        let mut block = Vec::new();
        block.push(Stmt::If { condition, then_block, else_block: current });
        proof {
            lemma_stmts_view_push(Seq::empty(), block@[0]);
            assert(Seq::<Stmt>::empty().push(block@[0]) =~= block@);
            assert(stmts_view(Seq::<Stmt>::empty()) =~= Seq::<StmtV>::empty());
            assert(stmts_view(block@) =~= seq![
                StmtV::If { condition: xv.0, then_block: xv.1, else_block: cur_v },
            ]);
        }
        current = Some(block);
    }
    current
}

#[verifier::spinoff_prover]
fn if_x(t: &[Token], pos: usize, far: usize) -> (r: (Option<(Stmt, usize)>, usize))
    requires
        pos <= t.len(),
        far <= t.len(),
    ensures
        out_stmt(r) == if_s(tv(t), pos as int, far as int),
        ends_in(r, pos as int, t.len() as int),
        r.1 <= t.len(),
    decreases t.len() - pos, 38nat,
{
    reveal_with_fuel(if_s, 1);
    if !(pos < t.len() && matches!(t[pos], Token::If)) {
        return (None, fail(far, pos));
    }
    let (r1, f1) = expr_x(t, pos + 1, far);
    let (condition, p1) = match r1 {
        None => return (None, f1),
        Some(x) => x,
    };
    let (r2, f2) = block_x(t, p1, f1);
    let (then_block, p2) = match r2 {
        None => return (None, f2),
        Some(x) => x,
    };
    let none: Vec<(Expr, Vec<Stmt>)> = Vec::new();
    proof {
        assert(elifs_view(none@) =~= Seq::empty());
    }
    let (r3, f3) = elseifs_x(t, none, p2, f2);
    let (elifs, p3) = match r3 {
        None => return (None, f3),
        Some(x) => x,
    };
    let (r4, f4) = else_opt_x(t, p3, f3);
    let (last, p4) = match r4 {
        None => return (None, f4),
        Some(x) => x,
    };
    let ghost elifs_v = elifs_view(elifs@);
    let ghost last_v = opt_block_view(last);
    let else_block = build_else_x(elifs, last);
    (Some((Stmt::If { condition, then_block, else_block }, p4)), f4)
}

#[verifier::spinoff_prover]
fn elseifs_x(t: &[Token], acc: Vec<(Expr, Vec<Stmt>)>, p: usize, far: usize) -> (r: (
    Option<(Vec<(Expr, Vec<Stmt>)>, usize)>,
    usize,
))
    requires
        p <= t.len(),
        far <= t.len(),
    ensures
        out_elifs(r) == elseifs_s(tv(t), elifs_view(acc@), p as int, far as int),
        r.0 is Some,
        ends_in(r, p - 1, t.len() as int),
        r.1 <= t.len(),
    decreases t.len() - p, 37nat,
{
    reveal_with_fuel(elseifs_s, 1);
    if !(p < t.len() && matches!(t[p], Token::Elseif)) {
        return (Some((acc, p)), fail(far, p));
    }
    let (r1, f1) = expr_x(t, p + 1, far);
    let (c, p1) = match r1 {
        None => return (Some((acc, p)), f1),
        Some(x) => x,
    };
    let (r2, f2) = block_x(t, p1, f1);
    match r2 {
        None => (Some((acc, p)), f2),
        Some((b, p2)) => {
            let ghost before = acc@;
            let ghost xv = (c@, stmts_view(b@));
            let mut acc = acc;
            acc.push((c, b));
            proof {
                assert(elifs_view(acc@) =~= elifs_view(before).push(xv));
            }
            elseifs_x(t, acc, p2, f2)
        },
    }
}

#[verifier::spinoff_prover]
fn else_opt_x(t: &[Token], p: usize, far: usize) -> (r: (Option<(Option<Vec<Stmt>>, usize)>, usize))
    requires
        p <= t.len(),
        far <= t.len(),
    ensures
        out_else(r) == else_opt_s(tv(t), p as int, far as int),
        r.0 is Some,
        ends_in(r, p - 1, t.len() as int),
        r.1 <= t.len(),
    decreases t.len() - p, 37nat,
{
    reveal_with_fuel(else_opt_s, 1);
    if !(p < t.len() && matches!(t[p], Token::Else)) {
        return (Some((None, p)), fail(far, p));
    }
    let (r, f1) = block_x(t, p + 1, far);
    match r {
        Some((b, q)) => (Some((Some(b), q)), f1),
        None => (Some((None, p)), f1),
    }
}

#[verifier::spinoff_prover]
fn return_x(t: &[Token], pos: usize, far: usize) -> (r: (Option<(Stmt, usize)>, usize))
    requires
        pos <= t.len(),
        far <= t.len(),
    ensures
        out_stmt(r) == return_s(tv(t), pos as int, far as int),
        ends_in(r, pos as int, t.len() as int),
        r.1 <= t.len(),
    decreases t.len() - pos, 38nat,
{
    reveal_with_fuel(return_s, 1);
    if !(pos < t.len() && matches!(t[pos], Token::Return)) {
        return (None, fail(far, pos));
    }
    let (r, f1) = expr_x(t, pos + 1, far);
    match r {
        Some((e, p)) => (Some((Stmt::Return(Some(e)), p)), f1),
        None => (Some((Stmt::Return(None), pos + 1)), f1),
    }
}

#[verifier::spinoff_prover]
fn for_x(t: &[Token], pos: usize, far: usize) -> (r: (Option<(Stmt, usize)>, usize))
    requires
        pos <= t.len(),
        far <= t.len(),
    ensures
        out_stmt(r) == for_s(tv(t), pos as int, far as int),
        ends_in(r, pos as int, t.len() as int),
        r.1 <= t.len(),
    decreases t.len() - pos, 38nat,
{
    reveal_with_fuel(for_s, 1);
    if !(pos < t.len() && matches!(t[pos], Token::For)) {
        return (None, fail(far, pos));
    }
    let (r1, f1) = type_x(t, pos + 1, far);
    let (ty, p1) = match r1 {
        None => return (None, f1),
        Some(x) => x,
    };
    let (r2, f2) = ident_x(t, p1, f1);
    let (name, p2) = match r2 {
        None => return (None, f2),
        Some(x) => x,
    };
    if !(p2 < t.len() && matches!(t[p2], Token::Assign)) {
        return (None, fail(f2, p2));
    }
    for_tail_x(t, pos, ty, name, p2 + 1, f2)
}

#[verifier::spinoff_prover]
fn for_tail_x(t: &[Token], pos: usize, ty: String, name: String, p: usize, far: usize) -> (r: (
    Option<(Stmt, usize)>,
    usize,
))
    requires
        pos < p <= t.len(),
        far <= t.len(),
    ensures
        out_stmt(r) == for_tail_s(tv(t), pos as int, ty@, name@, p as int, far as int),
        ends_in(r, pos as int, t.len() as int),
        r.1 <= t.len(),
    decreases t.len() - pos, 37nat,
{
    reveal_with_fuel(for_tail_s, 1);
    let (r1, f1) = expr_x(t, p, far);
    let (start, p1) = match r1 {
        None => return (None, f1),
        Some(x) => x,
    };
    if !(p1 < t.len() && matches!(t[p1], Token::Comma)) {
        return (None, fail(f1, p1));
    }
    let (r3, f3) = expr_x(t, p1 + 1, f1);
    let (end, p3) = match r3 {
        None => return (None, f3),
        Some(x) => x,
    };
    if !(p3 < t.len() && matches!(t[p3], Token::Comma)) {
        return (None, fail(f3, p3));
    }
    let (r5, f5) = expr_x(t, p3 + 1, f3);
    let (step, p5) = match r5 {
        None => return (None, f5),
        Some(x) => x,
    };
    let (r6, f6) = block_x(t, p5, f5);
    match r6 {
        None => (None, f6),
        Some((body, p6)) => (
            Some((Stmt::For { var_type: ty, name, start, end, step, body }, p6)),
            f6,
        ),
    }
}

#[verifier::spinoff_prover]
fn block_x(t: &[Token], p: usize, far: usize) -> (r: (Option<(Vec<Stmt>, usize)>, usize))
    requires
        p <= t.len(),
        far <= t.len(),
    ensures
        out_stmts(r) == block_s(tv(t), p as int, far as int),
        ends_in(r, p as int, t.len() as int),
        r.1 <= t.len(),
    decreases t.len() - p, 36nat,
{
    reveal_with_fuel(block_s, 1);
    if !(p < t.len() && matches!(t[p], Token::LBrace)) {
        return (None, fail(far, p));
    }
    let acc: Vec<Stmt> = Vec::new();
    proof {
        assert(stmts_view(acc@) =~= Seq::<StmtV>::empty());
    }
    let (r, f1) = stmts_x(t, acc, p + 1, far);
    match r {
        Some((body, q)) => {
            if q < t.len() && matches!(t[q], Token::RBrace) {
                (Some((body, q + 1)), f1)
            } else {
                (None, fail(f1, q))
            }
        },
        None => (None, f1),
    }
}

#[verifier::spinoff_prover]
fn stmts_x(t: &[Token], acc: Vec<Stmt>, p: usize, far: usize) -> (r: (
    Option<(Vec<Stmt>, usize)>,
    usize,
))
    requires
        p <= t.len(),
        far <= t.len(),
    ensures
        out_stmts(r) == stmts_s(tv(t), stmts_view(acc@), p as int, far as int),
        r.0 is Some,
        ends_in(r, p - 1, t.len() as int),
        r.1 <= t.len(),
    decreases t.len() - p, 41nat,
{
    reveal_with_fuel(stmts_s, 1);
    let (r, f1) = stmt_x(t, p, far);
    match r {
        None => (Some((acc, p)), f1),
        Some((x, p1)) => {
            let ghost before = acc@;
            let mut acc = acc;
            proof {
                lemma_stmts_view_push(before, x);
            }
            acc.push(x);
            stmts_x(t, acc, p1, f1)
        },
    }
}

/// Parses a whole token sequence into statements.
///
/// On a syntax error, gives the token position of the error: the furthest position at which
/// any attempt to read the program failed, which is the length of the sequence when the input
/// ended too early.
#[verifier::spinoff_prover]
pub fn parser(tokens: &[Token]) -> (r: Result<Vec<Stmt>, usize>)
    ensures
        match r {
            Ok(stmts) => parse_s(tv(tokens)) == Ok::<Seq<StmtV>, int>(stmts_view(stmts@)),
            Err(p) => parse_s(tv(tokens)) == Err::<Seq<StmtV>, int>(p as int),
        },
        r is Err ==> r->Err_0 <= tokens.len(),
{
    reveal_with_fuel(stmts_s, 1);
    let acc: Vec<Stmt> = Vec::new();
    proof {
        assert(stmts_view(acc@) =~= Seq::<StmtV>::empty());
    }
    let (r, f) = stmts_x(tokens, acc, 0, 0);
    match r {
        Some((stmts, p)) => {
            if p == tokens.len() {
                Ok(stmts)
            } else {
                Err(fail(f, p))
            }
        },
        None => Err(f),
    }
}

// ---------------------------------------------------------------------------------------------
// Syntax errors

/// How a token is written in a syntax error message: its variant name, with the payload in
/// parentheses (text payloads quoted and escaped; for a float, `shown`: how its value prints).
pub open spec fn token_debug(k: TokenV, shown: Seq<char>) -> Seq<char> {
    match k {
        TokenV::StringType => "StringType"@,
        TokenV::IntType => "IntType"@,
        TokenV::FloatType => "FloatType"@,
        TokenV::BoolType => "BoolType"@,
        TokenV::VoidType => "VoidType"@,
        TokenV::True => "True"@,
        TokenV::False => "False"@,
        TokenV::Auto => "Auto"@,
        TokenV::If => "If"@,
        TokenV::Else => "Else"@,
        TokenV::Elseif => "Elseif"@,
        TokenV::And => "And"@,
        TokenV::Or => "Or"@,
        TokenV::Not => "Not"@,
        TokenV::Return => "Return"@,
        TokenV::For => "For"@,
        TokenV::Assign => "Assign"@,
        TokenV::Plus => "Plus"@,
        TokenV::Minus => "Minus"@,
        TokenV::Star => "Star"@,
        TokenV::Slash => "Slash"@,
        TokenV::Equal => "Equal"@,
        TokenV::NotEqual => "NotEqual"@,
        TokenV::MoreOrEqual => "MoreOrEqual"@,
        TokenV::LessOrEqual => "LessOrEqual"@,
        TokenV::MoreThan => "MoreThan"@,
        TokenV::LessThan => "LessThan"@,
        TokenV::FatArrow => "FatArrow"@,
        TokenV::ThinArrow => "ThinArrow"@,
        TokenV::LBrace => "LBrace"@,
        TokenV::RBrace => "RBrace"@,
        TokenV::LParen => "LParen"@,
        TokenV::RParen => "RParen"@,
        TokenV::Comma => "Comma"@,
        TokenV::Concat => "Concat"@,
        TokenV::Ident(s) => "Ident("@ + str_debug_text(s) + ")"@,
        TokenV::Float(_) => "Float("@ + shown + ")"@,
        TokenV::Int(n) => "Int("@ + signed_decimal(n as int) + ")"@,
        TokenV::Str(s) => "String("@ + str_debug_text(s) + ")"@,
    }
}

/// Writes a token as a syntax error message shows it; `shown` is how the value of a float
/// token prints (it is used for nothing else).
#[verifier::spinoff_prover]
pub fn token_debug_x(k: &Token, shown: &str) -> (r: String)
    ensures
        r@ == token_debug(k@, shown@),
{
    match k {
        Token::StringType => String::from_str("StringType"),
        Token::IntType => String::from_str("IntType"),
        Token::FloatType => String::from_str("FloatType"),
        Token::BoolType => String::from_str("BoolType"),
        Token::VoidType => String::from_str("VoidType"),
        Token::True => String::from_str("True"),
        Token::False => String::from_str("False"),
        Token::Auto => String::from_str("Auto"),
        Token::If => String::from_str("If"),
        Token::Else => String::from_str("Else"),
        Token::Elseif => String::from_str("Elseif"),
        Token::And => String::from_str("And"),
        Token::Or => String::from_str("Or"),
        Token::Not => String::from_str("Not"),
        Token::Return => String::from_str("Return"),
        Token::For => String::from_str("For"),
        Token::Assign => String::from_str("Assign"),
        Token::Plus => String::from_str("Plus"),
        Token::Minus => String::from_str("Minus"),
        Token::Star => String::from_str("Star"),
        Token::Slash => String::from_str("Slash"),
        Token::Equal => String::from_str("Equal"),
        Token::NotEqual => String::from_str("NotEqual"),
        Token::MoreOrEqual => String::from_str("MoreOrEqual"),
        Token::LessOrEqual => String::from_str("LessOrEqual"),
        Token::MoreThan => String::from_str("MoreThan"),
        Token::LessThan => String::from_str("LessThan"),
        Token::FatArrow => String::from_str("FatArrow"),
        Token::ThinArrow => String::from_str("ThinArrow"),
        Token::LBrace => String::from_str("LBrace"),
        Token::RBrace => String::from_str("RBrace"),
        Token::LParen => String::from_str("LParen"),
        Token::RParen => String::from_str("RParen"),
        Token::Comma => String::from_str("Comma"),
        Token::Concat => String::from_str("Concat"),
        Token::Ident(s) => concat3("Ident(", debug_str(s.as_str()).as_str(), ")"),
        Token::Float(_) => concat3("Float(", shown, ")"),
        Token::Int(n) => concat3("Int(", i32_to_decimal(*n).as_str(), ")"),
        Token::String(s) => concat3("String(", debug_str(s.as_str()).as_str(), ")"),
    }
}

/// The message of a syntax error at token position `p`: the unexpected token (a float shown as
/// `shown`), or the end of the input.
pub open spec fn syntax_message(t: Seq<TokenV>, p: int, shown: Seq<char>) -> Seq<char> {
    if 0 <= p < t.len() {
        "unexpected "@ + token_debug(t[p], shown)
    } else {
        "unexpected end of file"@
    }
}

/// Whether `shown` is how `float_debug` prints the unexpected token at position `p` when it is a
/// float (a text it may give for the token's digits); empty for any other token.
pub open spec fn float_shown<F: Fn(&str) -> String>(
    float_debug: F,
    t: Seq<TokenV>,
    p: int,
    shown: Seq<char>,
) -> bool {
    match tok(t, p) {
        Some(TokenV::Float(text)) => exists|a: &str, r: String|
            a@ == text && #[trigger] call_ensures(float_debug, (a,), r) && r@ == shown,
        _ => shown == Seq::<char>::empty(),
    }
}

/// The end of the token span of a syntax error at position `p`: the token itself, or nothing
/// at the end of the input.
pub open spec fn syntax_error_end(t: Seq<TokenV>, p: int) -> int {
    if 0 <= p < t.len() {
        p + 1
    } else {
        p
    }
}

/// The diagnostic of a syntax error at token position `p` (a float token shown as `shown`),
/// before it is drawn.
pub open spec fn syntax_diag(t: Seq<TokenV>, p: int, shown: Seq<char>) -> DiagnosticV {
    DiagnosticV {
        message: syntax_message(t, p, shown),
        start: p as usize,
        end: syntax_error_end(t, p) as usize,
        help: None,
        rendered: None,
    }
}

/// A diagnostic with its drawing left out.
pub open spec fn unrendered(d: DiagnosticV) -> DiagnosticV {
    DiagnosticV { rendered: None, ..d }
}

/// Whether the report of the syntax error of `t`, if there is one, can be drawn over `source`.
/// The span of the report is the token span of the error, read as byte offsets of the source.
pub open spec fn syntax_report_drawable(t: Seq<TokenV>, source: Seq<char>) -> bool {
    match parse_s(t) {
        Ok(_) => true,
        Err(p) => p < usize::MAX && drawable(source, p, p + 1),
    }
}

/// Parses tokens into statements; on a syntax error, gives its diagnostic with the report
/// drawn over `source`. `float_debug` tells how the value of a float token, given by its digits,
/// prints; it is asked only when the unexpected token is a float.
#[verifier::spinoff_prover]
pub fn parse_code<F: Fn(&str) -> String>(tokens: &[Token], source: &str, float_debug: F) -> (r:
    Result<Vec<Stmt>, Vec<ParseDiagnostic>>)
    requires
        syntax_report_drawable(tv(tokens), source@),
        forall|a: &str| call_requires(float_debug, (a,)),
    ensures
        match parse_s(tv(tokens)) {
            Ok(stmts) => r is Ok && stmts_view(r->Ok_0@) == stmts,
            Err(p) => r is Err && r->Err_0.len() == 1 && r->Err_0@[0].rendered is Some && report_holds(
                r->Err_0@[0].rendered->0@,
                source@,
                "syntax error"@,
                p,
                p + 1,
                r->Err_0@[0].message@,
                None,
            ) && exists|
                shown: Seq<char>,
            |
                float_shown(float_debug, tv(tokens), p, shown) && unrendered(r->Err_0@[0]@)
                    == syntax_diag(tv(tokens), p, shown),
        },
{
    match parser(tokens) {
        Ok(stmts) => Ok(stmts),
        Err(p) => {
            let shown = if p < tokens.len() {
                match &tokens[p] {
                    Token::Float(text) => float_debug(text.as_str()),
                    _ => String::new(),
                }
            } else {
                String::new()
            };
            let message = if p < tokens.len() {
                concat2("unexpected ", token_debug_x(&tokens[p], shown.as_str()).as_str())
            } else {
                String::from_str("unexpected end of file")
            };
            let end = if p < tokens.len() {
                p + 1
            } else {
                p
            };
            let rendered = render_diagnostic(
                source,
                "syntax error",
                p,
                end,
                message.as_str(),
                None,
            );
            let mut errors = Vec::new();
            errors.push(ParseDiagnostic { message, start: p, end, help: None, rendered });
            proof {
                assert(float_shown(float_debug, tv(tokens), p as int, shown@));
                assert(errors@[0]@.message == syntax_message(tv(tokens), p as int, shown@));
                assert(unrendered(errors@[0]@) == syntax_diag(tv(tokens), p as int, shown@));
            }
            Err(errors)
        },
    }
}

} // verus!
