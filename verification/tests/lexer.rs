use nosharp::lexer::{byte_len, chars_of, lex_source};
use nosharp::syntax::Token;

fn ident(s: &str) -> Token {
    Token::Ident(s.to_string())
}

#[test]
fn lex_declaration() {
    let (tokens, errors) = lex_source("int x = 5");
    assert_eq!(tokens, vec![Token::IntType, ident("x"), Token::Assign, Token::Int(5)]);
    assert!(errors.is_empty());
}

#[test]
fn lex_keywords_win_over_names_but_longer_names_win() {
    let (tokens, errors) = lex_source("elseif else if ifx auto autos");
    assert_eq!(
        tokens,
        vec![Token::Elseif, Token::Else, Token::If, ident("ifx"), Token::Auto, ident("autos")]
    );
    assert!(errors.is_empty());
}

#[test]
fn lex_all_keywords() {
    let (tokens, errors) =
        lex_source("string int float bool void true false and or not return for");
    assert_eq!(
        tokens,
        vec![
            Token::StringType,
            Token::IntType,
            Token::FloatType,
            Token::BoolType,
            Token::VoidType,
            Token::True,
            Token::False,
            Token::And,
            Token::Or,
            Token::Not,
            Token::Return,
            Token::For,
        ]
    );
    assert!(errors.is_empty());
}

#[test]
fn lex_operators_longest_match() {
    let (tokens, errors) = lex_source("== != >= <= > < => -> .. = + - * / { } ( ) ,");
    assert_eq!(
        tokens,
        vec![
            Token::Equal,
            Token::NotEqual,
            Token::MoreOrEqual,
            Token::LessOrEqual,
            Token::MoreThan,
            Token::LessThan,
            Token::FatArrow,
            Token::ThinArrow,
            Token::Concat,
            Token::Assign,
            Token::Plus,
            Token::Minus,
            Token::Star,
            Token::Slash,
            Token::LBrace,
            Token::RBrace,
            Token::LParen,
            Token::RParen,
            Token::Comma,
        ]
    );
    assert!(errors.is_empty());
}

#[test]
fn lex_operators_without_spaces() {
    let (tokens, errors) = lex_source("a==b->c");
    assert_eq!(tokens, vec![ident("a"), Token::Equal, ident("b"), Token::ThinArrow, ident("c")]);
    assert!(errors.is_empty());
}

#[test]
fn lex_float_keeps_its_digits() {
    let (tokens, errors) = lex_source("1.50 3.0");
    assert_eq!(tokens, vec![Token::Float("1.50".to_string()), Token::Float("3.0".to_string())]);
    assert!(errors.is_empty());
}

#[test]
fn lex_number_then_lone_dot() {
    let (tokens, errors) = lex_source("1.");
    assert_eq!(tokens, vec![Token::Int(1)]);
    assert_eq!(errors, vec![(1, 2)]);
}

#[test]
fn lex_number_then_concat() {
    let (tokens, errors) = lex_source("1..2");
    assert_eq!(tokens, vec![Token::Int(1), Token::Concat, Token::Int(2)]);
    assert!(errors.is_empty());
}

#[test]
fn lex_string_literal_drops_quotes() {
    let (tokens, errors) = lex_source("\"hi there\" \"\"");
    assert_eq!(
        tokens,
        vec![Token::String("hi there".to_string()), Token::String(String::new())]
    );
    assert!(errors.is_empty());
}

#[test]
fn lex_string_may_span_lines() {
    let (tokens, errors) = lex_source("\"a\nb\"");
    assert_eq!(tokens, vec![Token::String("a\nb".to_string())]);
    assert!(errors.is_empty());
}

#[test]
fn lex_unterminated_string_is_one_error_to_the_end() {
    let (tokens, errors) = lex_source("x \"abc");
    assert_eq!(tokens, vec![ident("x")]);
    assert_eq!(errors, vec![(2, 6)]);
}

#[test]
fn lex_comments_and_blanks_are_skipped() {
    let (tokens, errors) = lex_source("a // note\n\tb\x0c// last");
    assert_eq!(tokens, vec![ident("a"), ident("b")]);
    assert!(errors.is_empty());
}

#[test]
fn lex_unknown_character() {
    let (tokens, errors) = lex_source("a $ b");
    assert_eq!(tokens, vec![ident("a"), ident("b")]);
    assert_eq!(errors, vec![(2, 3)]);
}

#[test]
fn lex_bang_alone_is_an_error() {
    let (tokens, errors) = lex_source("!x");
    assert_eq!(tokens, vec![ident("x")]);
    assert_eq!(errors, vec![(0, 1)]);
}

#[test]
fn lex_carriage_return_is_not_blank() {
    let (tokens, errors) = lex_source("a\r\nb");
    assert_eq!(tokens, vec![ident("a"), ident("b")]);
    assert_eq!(errors, vec![(1, 2)]);
}

#[test]
fn lex_multibyte_character_error_spans_its_bytes() {
    let (tokens, errors) = lex_source("é1");
    assert_eq!(tokens, vec![Token::Int(1)]);
    assert_eq!(errors, vec![(0, 2)]);
}

#[test]
fn lex_largest_int() {
    let (tokens, errors) = lex_source("2147483647");
    assert_eq!(tokens, vec![Token::Int(i32::MAX)]);
    assert!(errors.is_empty());
}

#[test]
fn lex_int_too_large_is_an_error() {
    let (tokens, errors) = lex_source("2147483648 7");
    assert_eq!(tokens, vec![Token::Int(7)]);
    assert_eq!(errors, vec![(0, 10)]);
}

#[test]
fn lex_leading_zeros() {
    let (tokens, _) = lex_source("007");
    assert_eq!(tokens, vec![Token::Int(7)]);
}

#[test]
fn lex_empty_source() {
    let (tokens, errors) = lex_source("");
    assert!(tokens.is_empty());
    assert!(errors.is_empty());
}

#[test]
fn byte_length_counts_utf8_bytes() {
    assert_eq!(byte_len("aé€😀"), 1 + 2 + 3 + 4);
    assert_eq!(chars_of("aé"), vec!['a', 'é']);
}
