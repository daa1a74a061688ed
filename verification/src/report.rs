//! Drawing error reports over the source text with ariadne.
//!
//! Spans are byte offsets into the source. ariadne draws a label over the lines that its span
//! covers and slices the source text at the span's ends, so a span that cuts a character in two,
//! or whose last byte is the end of the text, cannot be drawn (ariadne panics on it); nor can a
//! span whose last character lies on a line numbered a thousand million or more.
use vstd::prelude::*;

use crate::lexer::{byte_len, byte_offset, byte_offsets, chars_of, utf8_len};

verus! {

/// Whether byte offset `b` of `s` lies between two characters (or at either end of the text).
pub open spec fn at_char_boundary(s: Seq<char>, b: int) -> bool {
    exists|i: int| 0 <= i <= s.len() && byte_offset(s, i) == b
}

/// Whether a character ends a line for ariadne: carriage return, line feed, vertical tab,
/// form feed, next line, line separator or paragraph separator.
pub open spec fn is_line_separator(c: char) -> bool {
    c == '\r' || c == '\n' || c == '\x0B' || c == '\x0C' || c == '\u{85}' || c == '\u{2028}' || c
        == '\u{2029}'
}

/// The number of line breaks in `s`: its line separators, a line feed right after a carriage
/// return counting with it as one.
pub open spec fn line_breaks(s: Seq<char>) -> nat
    decreases s.len(),
{
    if s.len() == 0 {
        0
    } else {
        let rest = line_breaks(s.drop_last());
        if is_line_separator(s.last()) && !(s.last() == '\n' && s.len() >= 2 && s[s.len() - 2]
            == '\r') {
            rest + 1
        } else {
            rest
        }
    }
}

/// Whether a span ending at byte `end` of `s` ends at a character boundary and its last
/// character lies on a line numbered below a thousand million: fewer line breaks come before
/// that character.
pub open spec fn last_line_drawable(s: Seq<char>, end: int) -> bool {
    exists|j: int|
        0 < j <= s.len() && #[trigger] byte_offset(s, j) == end && line_breaks(s.take(j - 1))
            < 999_999_999
}

/// Whether ariadne can draw a report labelled over the byte span `start..end` of `s`
/// (`start < end`): the span starts at a character boundary if it starts within the text; and
/// if its last byte lies within the text, that byte is not the end of the text, and the span
/// ends at a character boundary with its last character on a line numbered below a thousand
/// million.
pub open spec fn drawable(s: Seq<char>, start: int, end: int) -> bool {
    &&& (start <= utf8_len(s) ==> at_char_boundary(s, start))
    &&& (end - 1 <= utf8_len(s) ==> end - 1 < utf8_len(s) && last_line_drawable(s, end))
}

/// Whether the span `start..end` of `s` lies on one line: it runs from a character to a later
/// one, and no character before its last one ends a line.
pub open spec fn on_one_line(s: Seq<char>, start: int, end: int) -> bool {
    exists|i: int, j: int|
        0 <= i < j <= s.len() && #[trigger] byte_offset(s, i) == start && #[trigger] byte_offset(
            s,
            j,
        ) == end && forall|k: int| i <= k < j - 1 ==> !is_line_separator(#[trigger] s[k])
}

/// Whether `small` occurs in `big` as consecutive characters.
pub open spec fn holds_text(big: Seq<char>, small: Seq<char>) -> bool {
    exists|i: int| 0 <= i && i + small.len() <= big.len() && #[trigger] big.subrange(i, i + small.len()) == small
}

/// What a report drawn with title `message`, label `label` over the byte span `start..end` of
/// `source` and help `help` holds, whatever the colours: the title; the label, when the span
/// lies within the text and on one line; and the help, when the span lies within the text and
/// the help is one line.
pub open spec fn report_holds(
    drawn: Seq<char>,
    source: Seq<char>,
    message: Seq<char>,
    start: int,
    end: int,
    label: Seq<char>,
    help: Option<Seq<char>>,
) -> bool {
    &&& holds_text(drawn, message)
    &&& (end <= utf8_len(source) && on_one_line(source, start, end)) ==> holds_text(drawn, label)
    &&& match help {
        Some(h) => (end <= utf8_len(source) && !h.contains('\n')) ==> holds_text(drawn, h),
        None => true,
    }
}

/// The view of an optional text slice.
pub open spec fn opt_text(o: Option<&str>) -> Option<Seq<char>> {
    match o {
        Some(h) => Some(h@),
        None => None,
    }
}

/// The end of the span that [`render_diagnostic`] labels: at least one byte past the start.
pub open spec fn label_end(start: int, end: int) -> int {
    if end > start + 1 {
        end
    } else {
        start + 1
    }
}

/// Draws an error report with ariadne: the title `message`, one red label with the text `label`
/// over the byte span `start..end` of `source`, which is shown under the name `file`, and the
/// help text if there is one.
///
/// Calls `ariadne::Report::build`, its builder methods and `Report::write` into a byte buffer,
/// and reads the buffer as UTF-8. The contract claims that a drawing comes back: `write` fails
/// only when its writer fails, which a `Vec<u8>` never does, and it writes formatted text, which
/// is UTF-8. Of the text it claims what ariadne writes as given, whatever colour codes surround
/// it: the title after `Error:`; the label after the arrow of a label on one line; each help
/// line after `Help:`, once the label's line is drawn (see [`report_holds`]). Where the colour
/// codes go is left unsaid: ariadne decides whether to emit them from the machine it runs on.
/// `requires` leaves out the spans on which `Report::write` panics (see [`drawable`]).
#[verifier::external_body]
fn draw_report(
    file: &str,
    source: &str,
    message: &str,
    start: usize,
    end: usize,
    label: &str,
    help: Option<&str>,
) -> (r: Option<String>)
    requires
        start < end,
        drawable(source@, start as int, end as int),
    ensures
        r is Some,
        report_holds(r->0@, source@, message@, start as int, end as int, label@, opt_text(help)),
{
    let mut report = ariadne::Report::build(ariadne::ReportKind::Error, (file, start..end))
        .with_config(ariadne::Config::default().with_index_type(ariadne::IndexType::Byte))
        .with_message(message)
        .with_label(
            ariadne::Label::new((file, start..end)).with_message(label).with_color(
                ariadne::Color::Red,
            ),
        );
    report.with_helps(help);
    let mut rendered = Vec::new();
    report.finish().write((file, ariadne::Source::from(source)), &mut rendered).ok()?;
    String::from_utf8(rendered).ok()
}

/// Draws the error report for a diagnostic: `message` as the title and `label` over the byte
/// span from `start` to `end`, widened to one byte when it is empty, of the source file
/// `main.no`; `help` below when there is one. A drawing always comes back, and it holds the
/// title, the label (when the span lies within the text and on one line) and the help (when the
/// span lies within the text and the help is one line).
pub fn render_diagnostic(
    source: &str,
    message: &str,
    start: usize,
    end: usize,
    label: &str,
    help: Option<&str>,
) -> (r: Option<String>)
    requires
        start < usize::MAX,
        drawable(source@, start as int, label_end(start as int, end as int)),
    ensures
        r is Some,
        report_holds(
            r->0@,
            source@,
            message@,
            start as int,
            label_end(start as int, end as int),
            label@,
            opt_text(help),
        ),
{
    let last = if end > start + 1 {
        end
    } else {
        start + 1
    };
    draw_report("main.no", source, message, start, last, label, help)
}

/// Whether byte offset `b` is one of the offsets in `offsets`.
fn is_listed(offsets: &Vec<usize>, b: usize) -> (r: bool)
    ensures
        r == exists|i: int| 0 <= i < offsets.len() && offsets@[i] == b,
{
    let mut i: usize = 0;
    while i < offsets.len()
        invariant
            i <= offsets.len(),
            forall|k: int| 0 <= k < i ==> offsets@[k] != b,
        decreases offsets.len() - i,
    {
        if offsets[i] == b {
            return true;
        }
        i = i + 1;
    }
    false
}

/// The index of the offset `b` in `offsets`, if it is there.
fn find_offset(offsets: &Vec<usize>, b: usize) -> (r: Option<usize>)
    ensures
        match r {
            Some(i) => i < offsets.len() && offsets@[i as int] == b,
            None => forall|i: int| 0 <= i < offsets.len() ==> offsets@[i] != b,
        },
{
    let mut i: usize = 0;
    while i < offsets.len()
        invariant
            i <= offsets.len(),
            forall|k: int| 0 <= k < i ==> offsets@[k] != b,
        decreases offsets.len() - i,
    {
        if offsets[i] == b {
            return Some(i);
        }
        i = i + 1;
    }
    None
}

fn is_line_separator_x(c: char) -> (r: bool)
    ensures
        r == is_line_separator(c),
{
    c == '\r' || c == '\n' || c == '\x0B' || c == '\x0C' || c == '\u{85}' || c == '\u{2028}' || c
        == '\u{2029}'
}

/// The line breaks among the first `m` characters of `s`.
fn count_line_breaks(s: &Vec<char>, m: usize) -> (r: usize)
    requires
        m <= s.len(),
    ensures
        r == line_breaks(s@.take(m as int)),
{
    let mut count: usize = 0;
    let mut k: usize = 0;
    assert(s@.take(0) =~= Seq::<char>::empty());
    while k < m
        invariant
            k <= m <= s.len(),
            count <= k,
            count == line_breaks(s@.take(k as int)),
        decreases m - k,
    {
        let c = s[k];
        proof {
            assert(s@.take(k + 1).drop_last() =~= s@.take(k as int));
            assert(s@.take(k + 1).last() == c);
            if k >= 1 {
                assert(s@.take(k + 1)[k - 1] == s@[k - 1]);
            }
        }
        if is_line_separator_x(c) && !(c == '\n' && k >= 1 && s[k - 1] == '\r') {
            count = count + 1;
        }
        k = k + 1;
    }
    count
}

/// Whether [`render_diagnostic`] can draw a report over the byte span from `start` to `end`
/// of `source`: it tells apart the spans that its `requires` admits.
pub fn can_render(source: &str, start: usize, end: usize) -> (r: bool)
    ensures
        r == (start < usize::MAX && drawable(source@, start as int, label_end(start as int, end as int))),
{
    if start == usize::MAX {
        return false;
    }
    let last = if end > start + 1 {
        end
    } else {
        start + 1
    };
    let n = byte_len(source);
    let s = chars_of(source);
    let offsets = byte_offsets(&s);
    proof {
        assert(s@.take(s@.len() as int) =~= s@);
        assert(offsets@[s@.len() as int] == n);
        assert forall|b: int| (exists|i: int| 0 <= i < offsets.len() && offsets@[i] == b) <==> at_char_boundary(s@, b) by {
            if at_char_boundary(s@, b) {
                let i = choose|i: int| 0 <= i <= s@.len() && byte_offset(s@, i) == b;
                assert(offsets@[i] == b);
            }
        }
    }
    if start <= n && !is_listed(&offsets, start) {
        return false;
    }
    if last - 1 <= n {
        if last - 1 == n {
            return false;
        }
        match find_offset(&offsets, last) {
            None => {
                proof {
                    assert forall|j: int| 0 < j <= s@.len() implies #[trigger] byte_offset(s@, j) != last by {
                        assert(offsets@[j] == byte_offset(s@, j));
                    }
                }
                return false;
            },
            Some(j) => {
                proof {
                    assert(offsets@[0] == 0);
                    assert(j > 0);
                    assert forall|j2: int| 0 < j2 <= s@.len() && #[trigger] byte_offset(s@, j2) == last implies j2 == j by {
                        if j2 < j {
                            crate::lexer::lemma_byte_offset_mono(s@, j2, j as int);
                        } else if j2 > j {
                            crate::lexer::lemma_byte_offset_mono(s@, j as int, j2);
                        }
                    }
                }
                let breaks = count_line_breaks(&s, j - 1);
                if breaks >= 999_999_999 {
                    return false;
                }
            },
        }
    }
    true
}

} // verus!
