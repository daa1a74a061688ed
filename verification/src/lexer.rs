//! The lexer of No#: from source text to tokens, with the byte spans of what it cannot read.
//!
//! At each position the longest match wins; a keyword wins over an identifier of the same
//! text. Blanks (space, tab, line feed, form feed) and `//` comments up to the end of the line
//! are skipped. Text that starts no token is an error, which lexing steps over.
use vstd::prelude::*;
use vstd::string::StrSliceExecFns;
use vstd::utf8::{char_is_scalar, encode_scalar, encode_utf8};

use crate::syntax::{Token, TokenV};
use crate::text::{push_char, str_eq};

verus! {

// ---------------------------------------------------------------------------------------------
// Byte offsets

/// The number of bytes of a character in UTF-8.
pub open spec fn char_width(c: char) -> nat {
    if (c as u32) <= 0x7f {
        1
    } else if (c as u32) <= 0x7ff {
        2
    } else if (c as u32) <= 0xffff {
        3
    } else {
        4
    }
}

/// The number of bytes of a character sequence in UTF-8.
pub open spec fn utf8_len(s: Seq<char>) -> nat
    decreases s.len(),
{
    if s.len() == 0 {
        0
    } else {
        utf8_len(s.drop_last()) + char_width(s.last())
    }
}

/// The byte offset at which the character at index `i` starts.
pub open spec fn byte_offset(s: Seq<char>, i: int) -> nat {
    utf8_len(s.take(i))
}

proof fn lemma_encode_utf8_concat_len(a: Seq<char>, b: Seq<char>)
    ensures
        encode_utf8(a + b).len() == encode_utf8(a).len() + encode_utf8(b).len(),
    decreases a.len(),
{
    if a.len() > 0 {
        assert((a + b).drop_first() =~= a.drop_first() + b);
        assert((a + b)[0] == a[0]);
        lemma_encode_utf8_concat_len(a.drop_first(), b);
    } else {
        assert(a + b =~= b);
    }
}

/// The byte count agrees with vstd's UTF-8 encoding.
pub proof fn lemma_utf8_len(s: Seq<char>)
    ensures
        utf8_len(s) == encode_utf8(s).len(),
    decreases s.len(),
{
    if s.len() > 0 {
        lemma_utf8_len(s.drop_last());
        let c = s.last();
        assert(s =~= s.drop_last() + seq![c]);
        lemma_encode_utf8_concat_len(s.drop_last(), seq![c]);
        assert(seq![c].drop_first() =~= Seq::<char>::empty());
        assert(encode_utf8(seq![c]) =~= encode_scalar(c as u32) + encode_utf8(Seq::<char>::empty()));
        char_is_scalar(c);
        assert(encode_scalar(c as u32).len() == char_width(c));
    }
}

/// Byte offsets grow with the character index.
pub proof fn lemma_byte_offset_mono(s: Seq<char>, i: int, j: int)
    requires
        0 <= i <= j <= s.len(),
    ensures
        byte_offset(s, i) <= byte_offset(s, j),
        byte_offset(s, i) < byte_offset(s, j) <==> i < j,
    decreases j - i,
{
    if i < j {
        lemma_byte_offset_mono(s, i, j - 1);
        assert(s.take(j).drop_last() =~= s.take(j - 1));
    }
}

fn char_bytes(c: char) -> (w: usize)
    ensures
        w == char_width(c),
{
    let v = c as u32;
    if v <= 0x7f {
        1
    } else if v <= 0x7ff {
        2
    } else if v <= 0xffff {
        3
    } else {
        4
    }
}

/// The number of bytes of a string slice in UTF-8.
pub fn byte_len(source: &str) -> (n: usize)
    ensures
        n == utf8_len(source@),
{
    let bytes = source.as_bytes_vec();
    proof {
        lemma_utf8_len(source@);
    }
    bytes.len()
}

/// The characters of a string slice, in order.
pub fn chars_of(source: &str) -> (r: Vec<char>)
    ensures
        r@ == source@,
{
    let mut out: Vec<char> = Vec::new();
    for c in it: source.chars()
        invariant
            out@ == it.seq().take(it.index() as int),
    {
        out.push(c);
    }
    out
}

/// The byte offset of every character index, from `0` to the length.
pub(crate) fn byte_offsets(s: &Vec<char>) -> (r: Vec<usize>)
    requires
        utf8_len(s@) <= usize::MAX,
    ensures
        r.len() == s.len() + 1,
        forall|i: int| 0 <= i <= s.len() ==> #[trigger] r@[i] == byte_offset(s@, i),
{
    let mut out: Vec<usize> = Vec::new();
    out.push(0);
    let mut b: usize = 0;
    let mut i: usize = 0;
    assert(s@.take(0) =~= Seq::<char>::empty());
    while i < s.len()
        invariant
            i <= s.len(),
            utf8_len(s@) <= usize::MAX,
            out.len() == i + 1,
            b == byte_offset(s@, i as int),
            forall|k: int| 0 <= k <= i ==> #[trigger] out@[k] == byte_offset(s@, k),
        decreases s.len() - i,
    {
        proof {
            lemma_byte_offset_mono(s@, i + 1, s.len() as int);
            assert(s@.take(s.len() as int) =~= s@);
            assert(s@.take(i + 1).drop_last() =~= s@.take(i as int));
        }
        b = b + char_bytes(s[i]);
        out.push(b);
        i = i + 1;
    }
    out
}

// ---------------------------------------------------------------------------------------------
// Character classes and runs

/// Blank characters: space, tab, line feed and form feed.
pub open spec fn is_blank(c: char) -> bool {
    c == ' ' || c == '\t' || c == '\n' || c == '\x0C'
}

/// Characters that may start an identifier.
pub open spec fn is_ident_start(c: char) -> bool {
    ('a' <= c && c <= 'z') || ('A' <= c && c <= 'Z') || c == '_'
}

/// ASCII digits.
pub open spec fn is_digit(c: char) -> bool {
    '0' <= c && c <= '9'
}

/// Characters that may continue an identifier.
pub open spec fn is_ident_char(c: char) -> bool {
    is_ident_start(c) || is_digit(c)
}

/// Characters that a comment runs over.
pub open spec fn in_comment(c: char) -> bool {
    c != '\r' && c != '\n'
}

/// Characters that a string literal runs over.
pub open spec fn in_string(c: char) -> bool {
    c != '"'
}

/// The end of the longest run from `i` of characters that satisfy `p`.
pub open spec fn run_end(s: Seq<char>, i: int, p: spec_fn(char) -> bool) -> int
    decreases s.len() - i,
{
    if 0 <= i < s.len() && p(s[i]) {
        run_end(s, i + 1, p)
    } else {
        i
    }
}

/// A run ends at or after its start, within the text, at a character outside the class.
pub proof fn lemma_run_end(s: Seq<char>, i: int, p: spec_fn(char) -> bool)
    requires
        0 <= i <= s.len(),
    ensures
        i <= run_end(s, i, p) <= s.len(),
        forall|k: int| i <= k < run_end(s, i, p) ==> p(#[trigger] s[k]),
        run_end(s, i, p) < s.len() ==> !p(s[run_end(s, i, p)]),
    decreases s.len() - i,
{
    if i < s.len() && p(s[i]) {
        lemma_run_end(s, i + 1, p);
    }
}

fn blank(c: char) -> (r: bool)
    ensures
        r == is_blank(c),
{
    c == ' ' || c == '\t' || c == '\n' || c == '\x0C'
}

fn ident_start(c: char) -> (r: bool)
    ensures
        r == is_ident_start(c),
{
    ('a' <= c && c <= 'z') || ('A' <= c && c <= 'Z') || c == '_'
}

fn digit(c: char) -> (r: bool)
    ensures
        r == is_digit(c),
{
    '0' <= c && c <= '9'
}

fn ident_char(c: char) -> (r: bool)
    ensures
        r == is_ident_char(c),
{
    ident_start(c) || digit(c)
}

/// The kinds of runs the lexer scans.
pub enum Run {
    Blank,
    Ident,
    Digits,
    Comment,
    Quoted,
}

/// The class of characters that a run of the given kind takes.
pub open spec fn run_class(k: Run) -> spec_fn(char) -> bool {
    match k {
        Run::Blank => |c: char| is_blank(c),
        Run::Ident => |c: char| is_ident_char(c),
        Run::Digits => |c: char| is_digit(c),
        Run::Comment => |c: char| in_comment(c),
        Run::Quoted => |c: char| in_string(c),
    }
}

fn in_run(k: &Run, c: char) -> (r: bool)
    ensures
        r == (run_class(*k))(c),
{
    match k {
        Run::Blank => blank(c),
        Run::Ident => ident_char(c),
        Run::Digits => digit(c),
        Run::Comment => c != '\r' && c != '\n',
        Run::Quoted => c != '"',
    }
}

fn scan_run(s: &Vec<char>, i: usize, k: Run) -> (e: usize)
    requires
        i <= s.len(),
    ensures
        e == run_end(s@, i as int, run_class(k)),
        i <= e <= s.len(),
{
    let mut e = i;
    proof {
        lemma_run_end(s@, i as int, run_class(k));
    }
    while e < s.len() && in_run(&k, s[e])
        invariant
            i <= e <= s.len(),
            run_end(s@, i as int, run_class(k)) == run_end(s@, e as int, run_class(k)),
        decreases s.len() - e,
    {
        e = e + 1;
    }
    e
}

// ---------------------------------------------------------------------------------------------
// Tokens

/// The token for a word: a keyword, else an identifier.
pub open spec fn word_token(w: Seq<char>) -> TokenV {
    if w == "string"@ {
        TokenV::StringType
    } else if w == "int"@ {
        TokenV::IntType
    } else if w == "float"@ {
        TokenV::FloatType
    } else if w == "bool"@ {
        TokenV::BoolType
    } else if w == "void"@ {
        TokenV::VoidType
    } else if w == "true"@ {
        TokenV::True
    } else if w == "false"@ {
        TokenV::False
    } else if w == "auto"@ {
        TokenV::Auto
    } else if w == "if"@ {
        TokenV::If
    } else if w == "else"@ {
        TokenV::Else
    } else if w == "elseif"@ {
        TokenV::Elseif
    } else if w == "and"@ {
        TokenV::And
    } else if w == "or"@ {
        TokenV::Or
    } else if w == "not"@ {
        TokenV::Not
    } else if w == "return"@ {
        TokenV::Return
    } else if w == "for"@ {
        TokenV::For
    } else {
        TokenV::Ident(w)
    }
}

/// The value of a decimal digit.
pub open spec fn digit_value(c: char) -> nat {
    ((c as u32) - ('0' as u32)) as nat
}

/// The value of a sequence of decimal digits.
pub open spec fn digits_value(w: Seq<char>) -> nat
    decreases w.len(),
{
    if w.len() == 0 {
        0
    } else {
        digits_value(w.drop_last()) * 10 + digit_value(w.last())
    }
}

/// What the lexer finds at a position: something skipped, a token, or an error.
pub enum Lexeme {
    Skip,
    Tok(TokenV),
    Error,
}

/// The longest match at position `i` (before the end of the text) and the position where it
/// ends.
pub open spec fn scan(s: Seq<char>, i: int) -> (Lexeme, int) {
    let c = s[i];
    let next = if i + 1 < s.len() {
        Some(s[i + 1])
    } else {
        None
    };
    if is_blank(c) {
        (Lexeme::Skip, run_end(s, i + 1, run_class(Run::Blank)))
    } else if c == '/' {
        if next == Some('/') {
            (Lexeme::Skip, run_end(s, i + 2, run_class(Run::Comment)))
        } else {
            (Lexeme::Tok(TokenV::Slash), i + 1)
        }
    } else if is_ident_start(c) {
        let e = run_end(s, i + 1, run_class(Run::Ident));
        (Lexeme::Tok(word_token(s.subrange(i, e))), e)
    } else if is_digit(c) {
        let e = run_end(s, i + 1, run_class(Run::Digits));
        if e + 1 < s.len() && s[e] == '.' && is_digit(s[e + 1]) {
            let f = run_end(s, e + 2, run_class(Run::Digits));
            (Lexeme::Tok(TokenV::Float(s.subrange(i, f))), f)
        } else if digits_value(s.subrange(i, e)) <= i32::MAX {
            (Lexeme::Tok(TokenV::Int(digits_value(s.subrange(i, e)) as i32)), e)
        } else {
            (Lexeme::Error, e)
        }
    } else if c == '"' {
        let e = run_end(s, i + 1, run_class(Run::Quoted));
        if e < s.len() {
            (Lexeme::Tok(TokenV::Str(s.subrange(i + 1, e))), e + 1)
        } else {
            (Lexeme::Error, e)
        }
    } else if c == '=' {
        if next == Some('=') {
            (Lexeme::Tok(TokenV::Equal), i + 2)
        } else if next == Some('>') {
            (Lexeme::Tok(TokenV::FatArrow), i + 2)
        } else {
            (Lexeme::Tok(TokenV::Assign), i + 1)
        }
    } else if c == '!' {
        if next == Some('=') {
            (Lexeme::Tok(TokenV::NotEqual), i + 2)
        } else {
            (Lexeme::Error, i + 1)
        }
    } else if c == '>' {
        if next == Some('=') {
            (Lexeme::Tok(TokenV::MoreOrEqual), i + 2)
        } else {
            (Lexeme::Tok(TokenV::MoreThan), i + 1)
        }
    } else if c == '<' {
        if next == Some('=') {
            (Lexeme::Tok(TokenV::LessOrEqual), i + 2)
        } else {
            (Lexeme::Tok(TokenV::LessThan), i + 1)
        }
    } else if c == '-' {
        if next == Some('>') {
            (Lexeme::Tok(TokenV::ThinArrow), i + 2)
        } else {
            (Lexeme::Tok(TokenV::Minus), i + 1)
        }
    } else if c == '.' {
        if next == Some('.') {
            (Lexeme::Tok(TokenV::Concat), i + 2)
        } else {
            (Lexeme::Error, i + 1)
        }
    } else if c == '+' {
        (Lexeme::Tok(TokenV::Plus), i + 1)
    } else if c == '*' {
        (Lexeme::Tok(TokenV::Star), i + 1)
    } else if c == '{' {
        (Lexeme::Tok(TokenV::LBrace), i + 1)
    } else if c == '}' {
        (Lexeme::Tok(TokenV::RBrace), i + 1)
    } else if c == '(' {
        (Lexeme::Tok(TokenV::LParen), i + 1)
    } else if c == ')' {
        (Lexeme::Tok(TokenV::RParen), i + 1)
    } else if c == ',' {
        (Lexeme::Tok(TokenV::Comma), i + 1)
    } else {
        (Lexeme::Error, i + 1)
    }
}

/// Each match makes progress and stays within the text.
pub proof fn lemma_scan_advances(s: Seq<char>, i: int)
    requires
        0 <= i < s.len(),
    ensures
        i < scan(s, i).1 <= s.len(),
{
    lemma_run_end(s, i + 1, run_class(Run::Blank));
    lemma_run_end(s, i + 1, run_class(Run::Ident));
    lemma_run_end(s, i + 1, run_class(Run::Digits));
    lemma_run_end(s, i + 1, run_class(Run::Quoted));
    if i + 2 <= s.len() {
        lemma_run_end(s, i + 2, run_class(Run::Comment));
    }
    let e = run_end(s, i + 1, run_class(Run::Digits));
    if e + 2 <= s.len() {
        lemma_run_end(s, e + 2, run_class(Run::Digits));
    }
}

/// What lexing yields: the tokens, and the byte span of each error, in source order.
pub struct LexResult {
    pub tokens: Seq<TokenV>,
    pub errors: Seq<(nat, nat)>,
}

/// Lexing the text from position `i` on.
pub open spec fn lex_from(s: Seq<char>, i: int) -> LexResult
    decreases s.len() - i,
{
    if i < 0 || i >= s.len() {
        LexResult { tokens: Seq::empty(), errors: Seq::empty() }
    } else {
        let (lx, e) = scan(s, i);
        proof {
            lemma_scan_advances(s, i);
        }
        let rest = lex_from(s, e);
        match lx {
            Lexeme::Skip => rest,
            Lexeme::Tok(t) => LexResult { tokens: seq![t] + rest.tokens, ..rest },
            Lexeme::Error => LexResult {
                errors: seq![(byte_offset(s, i), byte_offset(s, e))] + rest.errors,
                ..rest
            },
        }
    }
}

/// Whether a byte span runs from the offset of one character of `s` to that of a later
/// character (or the end of the text).
pub open spec fn char_span(s: Seq<char>, span: (nat, nat)) -> bool {
    exists|a: int, b: int| 0 <= a < b <= s.len() && span == (byte_offset(s, a), byte_offset(s, b))
}

/// Every error span of lexing from `i` runs between two characters.
pub proof fn lemma_lex_error_spans(s: Seq<char>, i: int)
    ensures
        forall|k: int|
            0 <= k < lex_from(s, i).errors.len() ==> char_span(s, #[trigger] lex_from(s, i).errors[k]),
    decreases s.len() - i,
{
    if 0 <= i < s.len() {
        lemma_scan_advances(s, i);
        let (lx, e) = scan(s, i);
        lemma_lex_error_spans(s, e);
        let rest = lex_from(s, e);
        if lx is Error {
            assert forall|k: int| 0 <= k < lex_from(s, i).errors.len() implies char_span(
                s,
                #[trigger] lex_from(s, i).errors[k],
            ) by {
                if k == 0 {
                    assert(lex_from(s, i).errors[0] == (byte_offset(s, i), byte_offset(s, e)));
                } else {
                    assert(lex_from(s, i).errors[k] == rest.errors[k - 1]);
                }
            }
        }
    }
}

/// Lexing a whole text.
pub open spec fn lex_spec(s: Seq<char>) -> LexResult {
    lex_from(s, 0)
}

/// The view of a list of tokens.
pub open spec fn tokens_view(t: Seq<Token>) -> Seq<TokenV> {
    t.map_values(|x: Token| x@)
}

/// The view of a list of byte spans.
pub open spec fn spans_view(v: Seq<(usize, usize)>) -> Seq<(nat, nat)> {
    v.map_values(|p: (usize, usize)| (p.0 as nat, p.1 as nat))
}

// ---------------------------------------------------------------------------------------------
// The lexer

/// What the lexer finds at a position, as a value.
enum Found {
    Skip,
    Tok(Token),
    Error,
}

spec fn found_view(f: Found) -> Lexeme {
    match f {
        Found::Skip => Lexeme::Skip,
        Found::Tok(t) => Lexeme::Tok(t@),
        Found::Error => Lexeme::Error,
    }
}

fn collect_string(s: &Vec<char>, from: usize, to: usize) -> (r: String)
    requires
        from <= to <= s.len(),
    ensures
        r@ == s@.subrange(from as int, to as int),
{
    let mut r = String::new();
    let mut k = from;
    while k < to
        invariant
            from <= k <= to <= s.len(),
            r@ == s@.subrange(from as int, k as int),
        decreases to - k,
    {
        push_char(&mut r, s[k]);
        k = k + 1;
        assert(r@ =~= s@.subrange(from as int, k as int));
    }
    r
}

fn word(w: String) -> (t: Token)
    ensures
        t@ == word_token(w@),
{
    let x = w.as_str();
    if str_eq(x, "string") {
        Token::StringType
    } else if str_eq(x, "int") {
        Token::IntType
    } else if str_eq(x, "float") {
        Token::FloatType
    } else if str_eq(x, "bool") {
        Token::BoolType
    } else if str_eq(x, "void") {
        Token::VoidType
    } else if str_eq(x, "true") {
        Token::True
    } else if str_eq(x, "false") {
        Token::False
    } else if str_eq(x, "auto") {
        Token::Auto
    } else if str_eq(x, "if") {
        Token::If
    } else if str_eq(x, "else") {
        Token::Else
    } else if str_eq(x, "elseif") {
        Token::Elseif
    } else if str_eq(x, "and") {
        Token::And
    } else if str_eq(x, "or") {
        Token::Or
    } else if str_eq(x, "not") {
        Token::Not
    } else if str_eq(x, "return") {
        Token::Return
    } else if str_eq(x, "for") {
        Token::For
    } else {
        Token::Ident(w)
    }
}

/// The value of the digits `s[from..to]`, if it fits an `i32`.
fn int_value(s: &Vec<char>, from: usize, to: usize) -> (r: Option<i32>)
    requires
        from <= to <= s.len(),
        forall|k: int| from <= k < to ==> is_digit(#[trigger] s@[k]),
    ensures
        match r {
            Some(v) => digits_value(s@.subrange(from as int, to as int)) <= i32::MAX && v
                == digits_value(s@.subrange(from as int, to as int)),
            None => digits_value(s@.subrange(from as int, to as int)) > i32::MAX,
        },
{
    let mut acc: u64 = 0;
    let mut k = from;
    assert(s@.subrange(from as int, from as int) =~= Seq::<char>::empty());
    while k < to
        invariant
            from <= k <= to <= s.len(),
            forall|q: int| from <= q < to ==> is_digit(#[trigger] s@[q]),
            acc == digits_value(s@.subrange(from as int, k as int)),
            acc <= i32::MAX,
        decreases to - k,
    {
        let d = (s[k] as u32 - '0' as u32) as u64;
        assert(s@.subrange(from as int, k + 1).drop_last() =~= s@.subrange(from as int, k as int));
        if acc > (2147483647u64 - d) / 10 {
            assert(digits_value(s@.subrange(from as int, k + 1)) > i32::MAX);
            proof {
                lemma_digits_overflow(s@, from as int, k + 1, to as int);
            }
            return None;
        }
        acc = acc * 10 + d;
        k = k + 1;
    }
    Some(acc as i32)
}

/// Once the digits read so far exceed `i32::MAX`, more digits keep them above it.
proof fn lemma_digits_overflow(s: Seq<char>, from: int, k: int, to: int)
    requires
        0 <= from <= k <= to <= s.len(),
        digits_value(s.subrange(from, k)) > i32::MAX,
    ensures
        digits_value(s.subrange(from, to)) > i32::MAX,
    decreases to - k,
{
    if k < to {
        assert(s.subrange(from, k + 1).drop_last() =~= s.subrange(from, k));
        lemma_digits_overflow(s, from, k + 1, to);
    }
}

fn next_is(s: &Vec<char>, i: usize, c: char) -> (r: bool)
    requires
        i < s.len(),
    ensures
        r == ((if i + 1 < s.len() {
            Some(s@[i + 1])
        } else {
            None
        }) == Some(c)),
{
    i + 1 < s.len() && s[i + 1] == c
}

/// The longest match at position `i`.
fn scan_at(s: &Vec<char>, i: usize) -> (r: (Found, usize))
    requires
        i < s.len(),
    ensures
        (found_view(r.0), r.1 as int) == scan(s@, i as int),
{
    let c = s[i];
    if blank(c) {
        (Found::Skip, scan_run(s, i + 1, Run::Blank))
    } else if c == '/' {
        if next_is(s, i, '/') {
            (Found::Skip, scan_run(s, i + 2, Run::Comment))
        } else {
            (Found::Tok(Token::Slash), i + 1)
        }
    } else if ident_start(c) {
        let e = scan_run(s, i + 1, Run::Ident);
        (Found::Tok(word(collect_string(s, i, e))), e)
    } else if digit(c) {
        let e = scan_run(s, i + 1, Run::Digits);
        proof {
            lemma_run_end(s@, i + 1, run_class(Run::Digits));
        }
        if s.len() - e > 1 && s[e] == '.' && digit(s[e + 1]) {
            let f = scan_run(s, e + 2, Run::Digits);
            (Found::Tok(Token::Float(collect_string(s, i, f))), f)
        } else {
            match int_value(s, i, e) {
                Some(v) => (Found::Tok(Token::Int(v)), e),
                None => (Found::Error, e),
            }
        }
    } else if c == '"' {
        let e = scan_run(s, i + 1, Run::Quoted);
        if e < s.len() {
            (Found::Tok(Token::String(collect_string(s, i + 1, e))), e + 1)
        } else {
            (Found::Error, e)
        }
    } else if c == '=' {
        if next_is(s, i, '=') {
            (Found::Tok(Token::Equal), i + 2)
        } else if next_is(s, i, '>') {
            (Found::Tok(Token::FatArrow), i + 2)
        } else {
            (Found::Tok(Token::Assign), i + 1)
        }
    } else if c == '!' {
        if next_is(s, i, '=') {
            (Found::Tok(Token::NotEqual), i + 2)
        } else {
            (Found::Error, i + 1)
        }
    } else if c == '>' {
        if next_is(s, i, '=') {
            (Found::Tok(Token::MoreOrEqual), i + 2)
        } else {
            (Found::Tok(Token::MoreThan), i + 1)
        }
    } else if c == '<' {
        if next_is(s, i, '=') {
            (Found::Tok(Token::LessOrEqual), i + 2)
        } else {
            (Found::Tok(Token::LessThan), i + 1)
        }
    } else if c == '-' {
        if next_is(s, i, '>') {
            (Found::Tok(Token::ThinArrow), i + 2)
        } else {
            (Found::Tok(Token::Minus), i + 1)
        }
    } else if c == '.' {
        if next_is(s, i, '.') {
            (Found::Tok(Token::Concat), i + 2)
        } else {
            (Found::Error, i + 1)
        }
    } else if c == '+' {
        (Found::Tok(Token::Plus), i + 1)
    } else if c == '*' {
        (Found::Tok(Token::Star), i + 1)
    } else if c == '{' {
        (Found::Tok(Token::LBrace), i + 1)
    } else if c == '}' {
        (Found::Tok(Token::RBrace), i + 1)
    } else if c == '(' {
        (Found::Tok(Token::LParen), i + 1)
    } else if c == ')' {
        (Found::Tok(Token::RParen), i + 1)
    } else if c == ',' {
        (Found::Tok(Token::Comma), i + 1)
    } else {
        (Found::Error, i + 1)
    }
}

/// Lexes source text: the tokens in order, and the byte span of each piece of text that starts
/// no token.
pub fn lex_source(source: &str) -> (r: (Vec<Token>, Vec<(usize, usize)>))
    ensures
        tokens_view(r.0@) == lex_spec(source@).tokens,
        spans_view(r.1@) == lex_spec(source@).errors,
{
    let _ = byte_len(source);
    let s = chars_of(source);
    let offsets = byte_offsets(&s);
    let mut tokens: Vec<Token> = Vec::new();
    let mut errors: Vec<(usize, usize)> = Vec::new();
    let mut i: usize = 0;
    assert(tokens_view(tokens@) + lex_from(s@, 0).tokens =~= lex_spec(s@).tokens);
    assert(spans_view(errors@) + lex_from(s@, 0).errors =~= lex_spec(s@).errors);
    while i < s.len()
        invariant
            i <= s.len(),
            offsets.len() == s.len() + 1,
            forall|k: int| 0 <= k <= s.len() ==> #[trigger] offsets@[k] == byte_offset(s@, k),
            lex_spec(s@).tokens == tokens_view(tokens@) + lex_from(s@, i as int).tokens,
            lex_spec(s@).errors == spans_view(errors@) + lex_from(s@, i as int).errors,
        decreases s.len() - i,
    {
        let (found, e) = scan_at(&s, i);
        proof {
            lemma_scan_advances(s@, i as int);
        }
        let ghost rest = lex_from(s@, e as int);
        match found {
            Found::Skip => {},
            Found::Tok(t) => {
                let ghost before = tokens@;
                tokens.push(t);
                assert(tokens_view(tokens@) =~= tokens_view(before).push(t@));
                assert(tokens_view(tokens@) + rest.tokens =~= tokens_view(before) + (seq![t@]
                    + rest.tokens));
            },
            Found::Error => {
                let ghost before = errors@;
                errors.push((offsets[i], offsets[e]));
                assert(spans_view(errors@) =~= spans_view(before).push(
                    (byte_offset(s@, i as int), byte_offset(s@, e as int)),
                ));
                assert(spans_view(errors@) + rest.errors =~= spans_view(before) + (seq![
                    (byte_offset(s@, i as int), byte_offset(s@, e as int)),
                ] + rest.errors));
            },
        }
        i = e;
    }
    assert(tokens_view(tokens@) + lex_from(s@, i as int).tokens =~= tokens_view(tokens@));
    assert(spans_view(errors@) + lex_from(s@, i as int).errors =~= spans_view(errors@));
    (tokens, errors)
}

} // verus!
