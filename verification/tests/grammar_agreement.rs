use chumsky::error::Rich;
use chumsky::extra;
use chumsky::primitive::just;
use chumsky::recursive::recursive;
use chumsky::{IterParser, Parser};
use chumsky::primitive::select;
use nosharp::lexer::lex_source;
use nosharp::parser::parser;
use nosharp::syntax::{Expr, Op, Stmt, Token};

/// The grammar of No# written with chumsky's combinators: ordered choice with backtracking and
/// the error at the furthest failure.
fn combinator_grammar<'a>() -> impl Parser<'a, &'a [Token], Vec<Stmt>, extra::Err<Rich<'a, Token>>> {
    recursive(|stmt| {
        let ident = select(|t: Token, _| match t {
            Token::Ident(s) => Some(s),
            _ => None,
        });
        let type_parser = select(|t: Token, _| match t {
            Token::IntType => Some("int".to_string()),
            Token::FloatType => Some("float".to_string()),
            Token::StringType => Some("string".to_string()),
            Token::BoolType => Some("bool".to_string()),
            Token::VoidType => Some("void".to_string()),
            Token::Ident(s) => Some(s),
            _ => None,
        });
        let block = stmt
            .clone()
            .repeated()
            .collect()
            .delimited_by(just(Token::LBrace), just(Token::RBrace));
        let expr = recursive(|expr| {
            let int_lit = select(|t: Token, _| match t { Token::Int(n) => Some(Expr::Int(n)), _ => None });
            let float_lit = select(|t: Token, _| match t { Token::Float(f) => Some(Expr::Float(f)), _ => None });
            let str_lit = select(|t: Token, _| match t { Token::String(s) => Some(Expr::String(s)), _ => None });
            let ident_lit = select(|t: Token, _| match t { Token::Ident(s) => Some(Expr::Var(s)), _ => None });
            let bool_lit = select(|t: Token, _| match t {
                Token::True => Some(Expr::Bool(true)),
                Token::False => Some(Expr::Bool(false)),
                _ => None,
            });
            let args = expr.clone().separated_by(just(Token::Comma)).collect::<Vec<_>>();
            let atom = int_lit
                .or(float_lit)
                .or(str_lit)
                .or(bool_lit)
                .or(ident_lit)
                .or(expr.clone().delimited_by(just(Token::LParen), just(Token::RParen)));
            let call_expr = atom.clone().foldl(
                args.delimited_by(just(Token::LParen), just(Token::RParen)).repeated(),
                |callee, args| Expr::Call { callee: Box::new(callee), args },
            );
            let math_op = select(|t: Token, _| match t {
                Token::Plus => Some(Op::Add),
                Token::Minus => Some(Op::Sub),
                Token::Star => Some(Op::Mul),
                Token::Slash => Some(Op::Div),
                _ => None,
            });
            let math_expr = call_expr.clone().foldl(
                math_op.then(call_expr.clone()).repeated(),
                |left, (op, right)| Expr::Binary { op, left: Box::new(left), right: Box::new(right) },
            );
            let cmp_op = select(|t: Token, _| match t {
                Token::Equal => Some(Op::Equal),
                Token::NotEqual => Some(Op::NotEqual),
                Token::LessOrEqual => Some(Op::LessOrEqual),
                Token::MoreOrEqual => Some(Op::MoreOrEqual),
                Token::LessThan => Some(Op::LessThan),
                Token::MoreThan => Some(Op::MoreThan),
                Token::Concat => Some(Op::Concat),
                _ => None,
            });
            let cmp_expr = math_expr.clone().foldl(
                cmp_op.then(math_expr).repeated(),
                |left, (op, right)| Expr::Binary { op, left: Box::new(left), right: Box::new(right) },
            );
            let logic_op = select(|t: Token, _| match t {
                Token::And => Some(Op::And),
                Token::Or => Some(Op::Or),
                Token::Not => Some(Op::Not),
                _ => None,
            });
            let unary_expr = just(Token::Not)
                .ignore_then(cmp_expr.clone())
                .map(|operand| Expr::Unary { op: Op::Not, operand: Box::new(operand) })
                .or(cmp_expr.clone());
            unary_expr.clone().foldl(
                logic_op.then(unary_expr).repeated(),
                |left, (op, right)| Expr::Binary { op, left: Box::new(left), right: Box::new(right) },
            )
        });
        let typed_let_stmt = type_parser
            .clone()
            .then(ident.clone())
            .then_ignore(just(Token::Assign))
            .then(expr.clone())
            .map(|((var_type, name), value)| Stmt::Let { var_type: Some(var_type), name, value });
        let let_stmt = just(Token::Auto)
            .ignore_then(ident.clone())
            .then_ignore(just(Token::Assign))
            .then(expr.clone())
            .map(|(name, value)| Stmt::Let { var_type: None, name, value });
        let assign_stmt = ident
            .clone()
            .then_ignore(just(Token::Assign))
            .then(expr.clone())
            .map(|(name, value)| Stmt::Assign { name, value });
        let elseif_branch = just(Token::Elseif).ignore_then(expr.clone()).then(block.clone());
        let else_branch = just(Token::Else).ignore_then(block.clone());
        let if_stmt = just(Token::If)
            .ignore_then(expr.clone())
            .then(block.clone())
            .then(elseif_branch.repeated().collect::<Vec<_>>())
            .then(else_branch.or_not())
            .map(|(((cond, then_b), elseifs), final_else)| {
                let mut current_else = final_else;
                for (e_cond, e_body) in elseifs.into_iter().rev() {
                    current_else =
                        Some(vec![Stmt::If { condition: e_cond, then_block: e_body, else_block: current_else }]);
                }
                Stmt::If { condition: cond, then_block: then_b, else_block: current_else }
            });
        let param_parser = type_parser.clone().then(ident.clone());
        let fn_params = param_parser
            .separated_by(just(Token::Comma))
            .collect::<Vec<_>>()
            .delimited_by(just(Token::LParen), just(Token::RParen));
        let fn_stmt = type_parser
            .clone()
            .then(ident.clone())
            .then(fn_params)
            .then(block.clone())
            .map(|(((return_type, name), params), body)| Stmt::Function { return_type, name, params, body });
        let return_stmt = just(Token::Return).ignore_then(expr.clone().or_not()).map(Stmt::Return);
        let for_stmt = just(Token::For)
            .ignore_then(type_parser.clone())
            .then(ident.clone())
            .then_ignore(just(Token::Assign))
            .then(expr.clone())
            .then_ignore(just(Token::Comma))
            .then(expr.clone())
            .then_ignore(just(Token::Comma))
            .then(expr.clone())
            .then(block.clone())
            .map(|(((((var_type, name), start), end), step), body)| Stmt::For {
                var_type,
                name,
                start,
                end,
                step,
                body,
            });
        fn_stmt
            .or(typed_let_stmt)
            .or(let_stmt)
            .or(assign_stmt)
            .or(if_stmt)
            .or(return_stmt)
            .or(for_stmt)
            .or(expr.map(Stmt::Expr))
    })
    .repeated()
    .collect()
}

/// The verified parser and the combinator grammar agree on `tokens`: the same statements, or a
/// syntax error at the same position over the same span, with the same unexpected token.
fn compare(tokens: &[Token]) {
    let expected = combinator_grammar().parse(tokens).into_result();
    let actual = parser(tokens);
    match (expected, actual) {
        (Ok(a), Ok(b)) => assert_eq!(a, b, "tokens {:?}", tokens),
        (Err(errs), Err(p)) => {
            assert_eq!(errs.len(), 1, "tokens {:?}", tokens);
            let span = errs[0].span().into_range();
            let expected_end = if p < tokens.len() { p + 1 } else { p };
            assert_eq!((span.start, span.end), (p, expected_end), "tokens {:?}", tokens);
            assert_eq!(errs[0].found(), tokens.get(p), "tokens {:?}", tokens);
        }
        (a, b) => panic!("tokens {:?}: combinators {:?}, verified {:?}", tokens, a.is_ok(), b),
    }
}

#[test]
fn grammar_agrees_on_sample_programs() {
    let sources = [
        "int x = 5", "auto y = 1.5 y = \"s\"", "1 + 2 * 3", "a + 1 == b .. c", "auto t = not a == b",
        "a and b or true", "a not b", "f(1, x) g()", "f(1)(2)", "2 * (3 - 1)",
        "int add(int a, int b) { return a + b }", "void main() { return }",
        "if a { x = 1 } elseif b { x = 2 } elseif c { } else { x = 3 }", "if true { }",
        "for int i = 0, 10, 1 { f(i) }", "", "int x =", "x = )", "f(1,)", "f(1 y)", "auto 5", "(",
        "if a { ", "for int i = 0, 1 { }", "int f(int a,) { }", "int f(int) { }", "return return",
        "not not a", "not", "a = not", "f(", "f(,)", "x y = 1", "int x = (1", "else { }",
        "if a { } else", "if a { } elseif", "auto a = b c = d", "}", "{ }", "a.. b", "a ==",
        "for int i = 0, 1, 2 { return } for", "int f() { int g() { } }", "1 2 3 +",
    ];
    for src in sources {
        let (t, errors) = lex_source(src);
        assert!(errors.is_empty(), "{}", src);
        compare(&t);
    }
}

#[test]
fn grammar_agrees_on_token_sequences() {
    let alphabet = [
        Token::Ident("a".to_string()),
        Token::Ident("b".to_string()),
        Token::Int(1),
        Token::IntType,
        Token::Auto,
        Token::Assign,
        Token::Plus,
        Token::Equal,
        Token::Not,
        Token::And,
        Token::LParen,
        Token::RParen,
        Token::LBrace,
        Token::RBrace,
        Token::Comma,
        Token::If,
        Token::Elseif,
        Token::Else,
        Token::Return,
        Token::For,
        Token::True,
        Token::String("s".to_string()),
    ];
    let mut seed: u64 = 0x2545F4914F6CDD1D;
    for _ in 0..30000 {
        seed ^= seed << 13;
        seed ^= seed >> 7;
        seed ^= seed << 17;
        let len = (seed % 11) as usize;
        let mut toks = Vec::new();
        let mut s = seed;
        for _ in 0..len {
            s ^= s << 13;
            s ^= s >> 7;
            s ^= s << 17;
            toks.push(alphabet[(s % alphabet.len() as u64) as usize].clone());
        }
        compare(&toks);
    }
}
