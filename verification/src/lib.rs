//! No# front end: lexer, parser, lowering to host commands, and the static checker.
//!
//! [`analyze`] runs the whole front end over a source text: it lexes, parses, lowers the
//! program to the commands that the host runs, and checks it against the host's functions.
pub mod syntax;
pub mod text;
pub mod alist;
pub mod eval;
pub mod commands;
pub mod lexer;
pub mod parser;
pub mod report;
pub mod laws;

use vstd::prelude::*;

use crate::commands::{commands_view, lower_program, lower_stmts_s, Command, CommandV};
use crate::eval::{
    check_program, check_program_s, diags_view, globals_view, new_checker_s, register_globals_s,
    GlobalFunction, GlobalFunctionV,
};
use crate::lexer::{lex_source, lex_spec, spans_view};
use crate::parser::{float_shown, parse_code, parse_s, syntax_diag, syntax_report_drawable, unrendered};
use crate::report::{can_render, drawable, label_end, render_diagnostic, report_holds};
use crate::syntax::{opt_str_view, DiagnosticV};

verus! {

/// A problem found in the source, as the host receives it.
#[derive(Debug)]
pub struct Diagnostic {
    pub message: String,
    pub start: usize,
    pub end: usize,
    pub help: Option<String>,
    pub rendered: Option<String>,
}

impl View for Diagnostic {
    type V = DiagnosticV;

    open spec fn view(&self) -> DiagnosticV {
        DiagnosticV {
            message: self.message@,
            start: self.start,
            end: self.end,
            help: opt_str_view(self.help),
            rendered: opt_str_view(self.rendered),
        }
    }
}

/// What the front end answers: whether the program is fine, the commands it lowers to (when it
/// could be parsed), and the problems found.
#[derive(Debug)]
pub struct ParseResult {
    pub success: bool,
    pub commands: Option<Vec<Command>>,
    pub errors: Vec<Diagnostic>,
}

/// The mathematical view of a [`ParseResult`].
pub struct ParseResultV {
    pub success: bool,
    pub commands: Option<Seq<CommandV>>,
    pub errors: Seq<DiagnosticV>,
}

/// The view of a list of diagnostics.
pub open spec fn diagnostics_view(s: Seq<Diagnostic>) -> Seq<DiagnosticV> {
    s.map_values(|d: Diagnostic| d@)
}

impl View for ParseResult {
    type V = ParseResultV;

    open spec fn view(&self) -> ParseResultV {
        ParseResultV {
            success: self.success,
            commands: match self.commands {
                Some(c) => Some(commands_view(c@)),
                None => None,
            },
            errors: diagnostics_view(self.errors@),
        }
    }
}

/// The diagnostic of a piece of text that starts no token, before it is drawn.
pub open spec fn lex_diag(span: (nat, nat)) -> DiagnosticV {
    DiagnosticV {
        message: "unknown token"@,
        start: span.0 as usize,
        end: span.1 as usize,
        help: Some("Remove or replace this character."@),
        rendered: None,
    }
}

/// What the front end answers for a source text and the host's functions, reports left
/// undrawn: the lexing errors if there are any; else the syntax error if there is one (an
/// unexpected float shown as `shown`); else the commands of the program with the checker's
/// diagnostics, and success when there are none.
pub open spec fn analysis(
    code: Seq<char>,
    globals: Seq<(Seq<char>, Result<GlobalFunctionV, Seq<char>>)>,
    shown: Seq<char>,
) -> ParseResultV {
    let lx = lex_spec(code);
    if lx.errors.len() > 0 {
        ParseResultV {
            success: false,
            commands: None,
            errors: lx.errors.map_values(|span: (nat, nat)| lex_diag(span)),
        }
    } else {
        match parse_s(lx.tokens) {
            Err(p) => ParseResultV {
                success: false,
                commands: None,
                errors: seq![syntax_diag(lx.tokens, p, shown)],
            },
            Ok(stmts) => {
                let diags = check_program_s(
                    register_globals_s(new_checker_s(), globals),
                    stmts,
                ).diagnostics;
                ParseResultV {
                    success: diags.len() == 0,
                    commands: Some(lower_stmts_s(stmts)),
                    errors: diags,
                }
            },
        }
    }
}

/// Whether `shown` is how `float_debug` prints the unexpected token of the syntax error of
/// `code`, when the text lexes and that token is a float.
pub open spec fn analysis_float_shown<F: Fn(&str) -> String>(
    float_debug: F,
    code: Seq<char>,
    shown: Seq<char>,
) -> bool {
    let lx = lex_spec(code);
    match parse_s(lx.tokens) {
        Err(p) => lx.errors.len() == 0 ==> float_shown(float_debug, lx.tokens, p, shown),
        Ok(_) => true,
    }
}

/// Whether the report of a lexing error over the byte span `span` of `code` can be drawn.
pub open spec fn lex_report_drawable(code: Seq<char>, span: (nat, nat)) -> bool {
    span.0 < usize::MAX && drawable(code, span.0 as int, label_end(span.0 as int, span.1 as int))
}

/// Whether the report of every lexing error over the byte spans `spans` of `code` can be drawn.
pub open spec fn lex_reports_drawable(code: Seq<char>, spans: Seq<(nat, nat)>) -> bool {
    forall|k: int| 0 <= k < spans.len() ==> lex_report_drawable(code, #[trigger] spans[k])
}

/// Whether every report that the front end draws for `code` can be drawn: the report of each
/// lexing error when there are any, else the report of the syntax error, if there is one.
pub open spec fn reports_drawable(code: Seq<char>) -> bool {
    let lx = lex_spec(code);
    if lx.errors.len() > 0 {
        lex_reports_drawable(code, lx.errors)
    } else {
        syntax_report_drawable(lx.tokens, code)
    }
}

/// Whether the diagnostic `d` carries a drawing of its report over `code`, holding what such a
/// drawing shows (see [`report_holds`]): for a lexing error, the title `lex error`, the label
/// and the help; for a syntax error, the title `syntax error` and the message as the label.
pub open spec fn drawn_report(d: DiagnosticV, code: Seq<char>, lexing: bool) -> bool {
    match d.rendered {
        Some(t) => if lexing {
            report_holds(
                t,
                code,
                "lex error"@,
                d.start as int,
                label_end(d.start as int, d.end as int),
                "this character is not valid No# syntax"@,
                Some("Remove or replace this character."@),
            )
        } else {
            report_holds(t, code, "syntax error"@, d.start as int, d.start + 1, d.message, None)
        },
        None => false,
    }
}

/// Whether `r` answers `a` but for the drawings of the reports, which it may hold.
pub open spec fn answers(r: ParseResultV, a: ParseResultV) -> bool {
    &&& r.success == a.success
    &&& r.commands == a.commands
    &&& r.errors.len() == a.errors.len()
    &&& forall|k: int|
        0 <= k < a.errors.len() ==> #[trigger] unrendered(r.errors[k]) == unrendered(a.errors[k])
}

fn from_parse_diagnostics(v: Vec<crate::syntax::ParseDiagnostic>) -> (r: Vec<Diagnostic>)
    ensures
        diagnostics_view(r@) == v@.map_values(|d: crate::syntax::ParseDiagnostic| d@),
{
    let mut out: Vec<Diagnostic> = Vec::new();
    let ghost orig = v@;
    assert(orig.len() == v.len());
    let mut rest = v;
    let mut k: usize = 0;
    while rest.len() > 0
        invariant
            k <= orig.len(),
            orig.len() <= usize::MAX,
            k + rest.len() == orig.len(),
            rest@ == orig.skip(k as int),
            diagnostics_view(out@) == orig.take(k as int).map_values(
                |d: crate::syntax::ParseDiagnostic| d@,
            ),
        decreases rest.len(),
    {
        let ghost before = rest@;
        let d = rest.remove(0);
        proof {
            assert(d == orig[k as int]);
            assert(rest@ =~= orig.skip(k + 1));
        }
        let ghost old_out = out@;
        out.push(
            Diagnostic {
                message: d.message,
                start: d.start,
                end: d.end,
                help: d.help,
                rendered: d.rendered,
            },
        );
        proof {
            assert(orig.take(k + 1) =~= orig.take(k as int).push(orig[k as int]));
            assert(out@ =~= old_out.push(out@.last()));
            assert(out@.last()@ == orig[k as int]@);
            assert(diagnostics_view(out@) =~= diagnostics_view(old_out).push(orig[k as int]@));
            assert(orig.take(k + 1).map_values(|d: crate::syntax::ParseDiagnostic| d@)
                =~= orig.take(k as int).map_values(|d: crate::syntax::ParseDiagnostic| d@).push(
                orig[k as int]@,
            ));
        }
        k = k + 1;
    }
    assert(orig.take(k as int) =~= orig);
    out
}

fn from_check_diagnostics(v: Vec<crate::eval::Diagnostic>) -> (r: Vec<Diagnostic>)
    ensures
        diagnostics_view(r@) == diags_view(v@),
{
    let mut out: Vec<Diagnostic> = Vec::new();
    let ghost orig = v@;
    assert(orig.len() == v.len());
    let mut rest = v;
    let mut k: usize = 0;
    while rest.len() > 0
        invariant
            k <= orig.len(),
            orig.len() <= usize::MAX,
            k + rest.len() == orig.len(),
            rest@ == orig.skip(k as int),
            diagnostics_view(out@) == diags_view(orig.take(k as int)),
        decreases rest.len(),
    {
        let ghost before = rest@;
        let d = rest.remove(0);
        proof {
            assert(d == orig[k as int]);
            assert(rest@ =~= orig.skip(k + 1));
        }
        let ghost old_out = out@;
        out.push(
            Diagnostic {
                message: d.message,
                start: d.start,
                end: d.end,
                help: d.help,
                rendered: d.rendered,
            },
        );
        proof {
            assert(orig.take(k + 1) =~= orig.take(k as int).push(orig[k as int]));
            assert(out@ =~= old_out.push(out@.last()));
            assert(out@.last()@ == orig[k as int]@);
            assert(diagnostics_view(out@) =~= diagnostics_view(old_out).push(orig[k as int]@));
            assert(diags_view(orig.take(k + 1)) =~= diags_view(orig.take(k as int)).push(
                orig[k as int]@,
            ));
        }
        k = k + 1;
    }
    assert(orig.take(k as int) =~= orig);
    out
}

/// Runs the front end over `code` with the host's functions `globals` (each a name with its
/// metadata, or with the text of the error met while reading it). `float_debug` tells how the
/// value of a float token, given by its digits, prints in a syntax error message.
///
/// Lexing errors are reported first, each over the text that starts no token; a program that
/// lexes is parsed, and a syntax error is reported over its token span; a program that parses
/// is lowered to commands and checked, and succeeds when the checker finds nothing. The reports
/// of lexing and syntax errors are drawn.
pub fn analyze<F: Fn(&str) -> String>(
    code: &str,
    globals: Vec<(String, Result<GlobalFunction, String>)>,
    float_debug: F,
) -> (r: ParseResult)
    requires
        reports_drawable(code@),
        forall|a: &str| call_requires(float_debug, (a,)),
    ensures
        exists|shown: Seq<char>|
            analysis_float_shown(float_debug, code@, shown) && answers(
                r@,
                #[trigger] analysis(code@, globals_view(globals@), shown),
            ),
        lex_spec(code@).errors.len() == 0 && parse_s(lex_spec(code@).tokens) is Ok ==> r@ == analysis(
            code@,
            globals_view(globals@),
            Seq::empty(),
        ),
        r@.commands is None ==> forall|k: int|
            0 <= k < r@.errors.len() ==> drawn_report(
                #[trigger] r@.errors[k],
                code@,
                lex_spec(code@).errors.len() > 0,
            ),
{
    let ghost a = analysis(code@, globals_view(globals@), Seq::empty());
    let (tokens, spans) = lex_source(code);
    let ghost lx = lex_spec(code@);
    if spans.len() > 0 {
        let mut errors: Vec<Diagnostic> = Vec::new();
        let mut k: usize = 0;
        while k < spans.len()
            invariant
                k <= spans.len(),
                spans_view(spans@) == lx.errors,
                lx == lex_spec(code@),
                lx.errors.len() > 0,
                forall|q: int| 0 <= q < lx.errors.len() ==> lex_report_drawable(code@, #[trigger] lx.errors[q]),
                a == analysis(code@, globals_view(globals@), Seq::empty()),
                errors.len() == k,
                forall|q: int| 0 <= q < k ==> drawn_report(#[trigger] errors@[q]@, code@, true),
                forall|q: int|
                    0 <= q < k ==> #[trigger] unrendered(errors@[q]@) == unrendered(a.errors[q]),
            decreases spans.len() - k,
        {
            let (start, end) = spans[k];
            let help = "Remove or replace this character.";
            proof {
                assert(lx.errors[k as int] == (start as nat, end as nat));
                assert(lex_report_drawable(code@, lx.errors[k as int]));
            }
            let rendered = render_diagnostic(
                code,
                "lex error",
                start,
                end,
                "this character is not valid No# syntax",
                Some(help),
            );
            errors.push(
                Diagnostic {
                    message: String::from_str("unknown token"),
                    start,
                    end,
                    help: Some(String::from_str(help)),
                    rendered,
                },
            );
            k = k + 1;
        }
        let r = ParseResult { success: false, commands: None, errors };
        proof {
            assert(diagnostics_view(r.errors@).len() == a.errors.len());
            assert forall|q: int| 0 <= q < a.errors.len() implies #[trigger] unrendered(
                r@.errors[q],
            ) == unrendered(a.errors[q]) by {
                assert(r@.errors[q] == r.errors@[q]@);
            }
            assert forall|q: int| 0 <= q < r@.errors.len() implies drawn_report(
                #[trigger] r@.errors[q],
                code@,
                lx.errors.len() > 0,
            ) by {
                assert(r@.errors[q] == r.errors@[q]@);
            }
            assert(analysis_float_shown(float_debug, code@, Seq::empty()));
        }
        return r;
    }
    proof {
        assert(lx.errors.len() == 0);
        assert(crate::lexer::tokens_view(tokens@) == lx.tokens);
    }
    match parse_code(&tokens, code, float_debug) {
        Err(errs) => {
            let ghost p = parse_s(lx.tokens)->Err_0;
            let ghost shown = choose|shown: Seq<char>|
                float_shown(float_debug, lx.tokens, p, shown) && unrendered(errs@[0]@)
                    == crate::parser::syntax_diag(lx.tokens, p, shown);
            let errors = from_parse_diagnostics(errs);
            let r = ParseResult { success: false, commands: None, errors };
            proof {
                assert(r@.errors[0] == errs@[0]@);
                assert(drawn_report(r@.errors[0], code@, false));
                let b = analysis(code@, globals_view(globals@), shown);
                assert(analysis_float_shown(float_debug, code@, shown));
                assert(answers(r@, b));
            }
            r
        },
        Ok(ast) => {
            let commands = lower_program(&ast);
            let found = check_program(&ast, globals);
            let errors = from_check_diagnostics(found);
            let success = errors.len() == 0;
            let r = ParseResult { success, commands: Some(commands), errors };
            proof {
                assert forall|q: int| 0 <= q < a.errors.len() implies #[trigger] unrendered(
                    r@.errors[q],
                ) == unrendered(a.errors[q]) by {
                    assert(r@.errors[q] == a.errors[q]);
                }
                assert(analysis_float_shown(float_debug, code@, Seq::empty()));
            }
            r
        },
    }
}

/// Whether [`analyze`] can draw every report it makes for `code`: it tells apart the texts
/// that its `requires` admits.
pub fn can_analyze(code: &str) -> (r: bool)
    ensures
        r == reports_drawable(code@),
{
    let (tokens, spans) = lex_source(code);
    let ghost lx = lex_spec(code@);
    if spans.len() > 0 {
        let mut k: usize = 0;
        while k < spans.len()
            invariant
                k <= spans.len(),
                lx == lex_spec(code@),
                spans_view(spans@) == lx.errors,
                forall|q: int| 0 <= q < k ==> lex_report_drawable(code@, #[trigger] lx.errors[q]),
            decreases spans.len() - k,
        {
            let (start, end) = spans[k];
            proof {
                assert(lx.errors[k as int] == (start as nat, end as nat));
            }
            if !can_render(code, start, end) {
                proof {
                    assert(!lex_report_drawable(code@, lx.errors[k as int]));
                    assert(lx.errors.len() > 0);
                    assert(!lex_reports_drawable(code@, lx.errors));
                }
                return false;
            }
            k = k + 1;
        }
        return true;
    }
    match crate::parser::parser(&tokens) {
        Ok(_) => true,
        Err(p) => {
            if p == usize::MAX {
                false
            } else {
                can_render(code, p, p + 1)
            }
        },
    }
}

/// The answer for source text that is not valid UTF-8.
pub fn invalid_source_result() -> (r: ParseResult)
    ensures
        r@ == (ParseResultV {
            success: false,
            commands: None,
            errors: seq![
                DiagnosticV {
                    message: "Invalid UTF-8 string"@,
                    start: 0,
                    end: 0,
                    help: None,
                    rendered: None,
                },
            ],
        }),
{
    failure(String::from_str("Invalid UTF-8 string"), None)
}

/// The answer for globals text that is not valid UTF-8.
pub fn invalid_globals_text_result() -> (r: ParseResult)
    ensures
        r@ == (ParseResultV {
            success: false,
            commands: None,
            errors: seq![
                DiagnosticV {
                    message: "Invalid UTF-8 globals JSON"@,
                    start: 0,
                    end: 0,
                    help: None,
                    rendered: None,
                },
            ],
        }),
{
    failure(String::from_str("Invalid UTF-8 globals JSON"), None)
}

/// The answer for globals that are not a JSON object of function metadata; `reason` is the
/// JSON reader's description of the problem.
pub fn invalid_globals_result(reason: &str) -> (r: ParseResult)
    ensures
        r@ == (ParseResultV {
            success: false,
            commands: None,
            errors: seq![
                DiagnosticV {
                    message: "Invalid globals JSON: "@ + reason@,
                    start: 0,
                    end: 0,
                    help: Some("Expected an object of global function metadata."@),
                    rendered: None,
                },
            ],
        }),
{
    failure(
        crate::text::concat2("Invalid globals JSON: ", reason),
        Some(String::from_str("Expected an object of global function metadata.")),
    )
}

/// A failed answer with one diagnostic over no span and without a drawing.
fn failure(message: String, help: Option<String>) -> (r: ParseResult)
    ensures
        r@ == (ParseResultV {
            success: false,
            commands: None,
            errors: seq![
                DiagnosticV {
                    message: message@,
                    start: 0,
                    end: 0,
                    help: opt_str_view(help),
                    rendered: None,
                },
            ],
        }),
{
    let mut errors = Vec::new();
    errors.push(Diagnostic { message, start: 0, end: 0, help, rendered: None });
    let r = ParseResult { success: false, commands: None, errors };
    assert(r@.errors =~= seq![r.errors@[0]@]);
    r
}

} // verus!
