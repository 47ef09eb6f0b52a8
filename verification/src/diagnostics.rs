//! Translation of a parser error into an editor diagnostic: each of
//! the four error shapes gets a fixed code tag and message template,
//! and its offset span is resolved to line/character positions against
//! the text it was reported on.

use vstd::prelude::*;

verus! {

use crate::Range;
use crate::line_index::{normalize_spec, records_spec, query_spec, pos_to_range};
use vstd::string::StringExecFns;

/// The four shapes of error the checker can report. Offsets are
/// character offsets against the line-feed-normalized text; the first
/// three carry a span, a custom error carries a single point.
#[derive(Clone, Debug)]
pub enum SyntaxErrorKind {
    ExpectedErr { expected: String, found: String, start: usize, end: usize },
    UnexpectedErr { found: String, start: usize, end: usize },
    SyntaxError { message: String, start: usize, end: usize },
    CustomError { message: String, pos: usize },
}

/// The one severity this checker ever reports.
#[derive(Clone, Copy, PartialEq, Eq, Structural, Debug)]
pub enum Severity {
    Error,
}

/// A positioned error record for an editor: the error kind's tag as a
/// code, a rendered message, the span it covers, and a fixed severity
/// and source label.
#[derive(Clone, Debug)]
pub struct Diagnostic {
    pub code: String,
    pub message: String,
    pub range: Range,
    pub severity: Severity,
    pub source: String,
}

/// The diagnostic code: the error kind's tag.
pub open spec fn code_str(e: SyntaxErrorKind) -> Seq<char> {
    match e {
        SyntaxErrorKind::ExpectedErr { .. } => "ExpectedErr"@,
        SyntaxErrorKind::UnexpectedErr { .. } => "UnexpectedErr"@,
        SyntaxErrorKind::SyntaxError { .. } => "SyntaxError"@,
        SyntaxErrorKind::CustomError { .. } => "CustomError"@,
    }
}

/// The diagnostic message: a fixed template for the first two kinds,
/// the carried message verbatim for the other two.
pub open spec fn message_str(e: SyntaxErrorKind) -> Seq<char> {
    match e {
        SyntaxErrorKind::ExpectedErr { expected, found, .. } => "expected "@ + expected@
            + ", found "@ + found@,
        SyntaxErrorKind::UnexpectedErr { found, .. } => "unexpected "@ + found@,
        SyntaxErrorKind::SyntaxError { message, .. } => message@,
        SyntaxErrorKind::CustomError { message, .. } => message@,
    }
}

/// The offset span an error covers; a custom error is a zero-width
/// span at its reported point.
pub open spec fn span_of(e: SyntaxErrorKind) -> (int, int) {
    match e {
        SyntaxErrorKind::ExpectedErr { start, end, .. } => (start as int, end as int),
        SyntaxErrorKind::UnexpectedErr { start, end, .. } => (start as int, end as int),
        SyntaxErrorKind::SyntaxError { start, end, .. } => (start as int, end as int),
        SyntaxErrorKind::CustomError { pos, .. } => (pos as int, pos as int),
    }
}

/// What `translate` promises of its diagnostic: code, message,
/// severity and source are fixed by the error kind, and the range is
/// the error's span resolved against the line index of the text.
pub open spec fn diag_matches(text: Seq<char>, e: SyntaxErrorKind, d: Diagnostic) -> bool {
    let rs = records_spec(normalize_spec(text));
    &&& d.code@ == code_str(e)
    &&& d.message@ == message_str(e)
    &&& (d.range.start.line as int, d.range.start.character as int) == query_spec(
        rs,
        span_of(e).0,
    )
    &&& (d.range.end.line as int, d.range.end.character as int) == query_spec(rs, span_of(e).1)
    &&& d.severity == Severity::Error
    &&& d.source@ == "SPWN Syntax"@
}

/// Renders one parser error as a positioned diagnostic against the
/// text it was reported on.
pub fn translate(text: &String, error: &SyntaxErrorKind) -> (d: Diagnostic)
    ensures
        diag_matches(text@, *error, d),
{
    let span: (usize, usize) = match error {
        SyntaxErrorKind::ExpectedErr { start, end, .. } => (*start, *end),
        SyntaxErrorKind::UnexpectedErr { start, end, .. } => (*start, *end),
        SyntaxErrorKind::SyntaxError { start, end, .. } => (*start, *end),
        SyntaxErrorKind::CustomError { pos, .. } => (*pos, *pos),
    };
    let range = pos_to_range(text, span);
    let code: String = match error {
        SyntaxErrorKind::ExpectedErr { .. } => String::from_str("ExpectedErr"),
        SyntaxErrorKind::UnexpectedErr { .. } => String::from_str("UnexpectedErr"),
        SyntaxErrorKind::SyntaxError { .. } => String::from_str("SyntaxError"),
        SyntaxErrorKind::CustomError { .. } => String::from_str("CustomError"),
    };
    let message: String = match error {
        SyntaxErrorKind::ExpectedErr { expected, found, .. } => {
            let mut m = String::from_str("expected ");
            m.append(expected.as_str());
            m.append(", found ");
            m.append(found.as_str());
            m
        },
        SyntaxErrorKind::UnexpectedErr { found, .. } => {
            let mut m = String::from_str("unexpected ");
            m.append(found.as_str());
            m
        },
        SyntaxErrorKind::SyntaxError { message, .. } => message.clone(),
        SyntaxErrorKind::CustomError { message, .. } => message.clone(),
    };
    Diagnostic {
        code,
        message,
        range,
        severity: Severity::Error,
        source: String::from_str("SPWN Syntax"),
    }
}

/// Translating the same text and error twice yields diagnostics that
/// agree in every field: the translation is a function of its inputs.
pub proof fn lemma_translate_deterministic(
    text: Seq<char>,
    e: SyntaxErrorKind,
    d1: Diagnostic,
    d2: Diagnostic,
)
    requires
        diag_matches(text, e, d1),
        diag_matches(text, e, d2),
    ensures
        d1.code@ == d2.code@,
        d1.message@ == d2.message@,
        d1.range == d2.range,
        d1.severity == d2.severity,
        d1.source@ == d2.source@,
{
}

} // verus!
