//! The decision step for one document event. The external checker's
//! verdict on the full text arrives here as a plain value — the caller
//! runs the parser and guards against its failure modes — and this
//! module decides, exactly, what is published: an empty list (clear)
//! when the check succeeded, the one translated error when it failed.

use vstd::prelude::*;

verus! {

use crate::diagnostics::{SyntaxErrorKind, Diagnostic, diag_matches, translate,
    lemma_translate_deterministic};

/// Turns the checker's verdict on one document into at most one
/// positioned diagnostic: exactly the translated error when the check
/// failed, and nothing if and only if it succeeded.
pub fn syntax_check(file: &String, outcome: Result<(), SyntaxErrorKind>) -> (r: Option<Diagnostic>)
    ensures
        r is Some <==> outcome is Err,
        outcome matches Err(e) ==> r matches Some(d) && diag_matches(file@, e, d),
{
    match outcome {
        Ok(()) => None,
        Err(e) => Some(translate(file, &e)),
    }
}

/// The list to publish for one checked document: empty exactly when
/// the check succeeded, else exactly the one translated error.
pub fn diagnostics_for(text: &String, outcome: Result<(), SyntaxErrorKind>) -> (v: Vec<Diagnostic>)
    ensures
        v@.len() == (if outcome is Err {
            1int
        } else {
            0int
        }),
        outcome matches Err(e) ==> diag_matches(text@, e, v@[0]),
{
    match syntax_check(text, outcome) {
        None => Vec::new(),
        Some(d) => {
            let mut v: Vec<Diagnostic> = Vec::new();
            v.push(d);
            v
        },
    }
}

/// Handling the same text and verdict twice yields publish lists that
/// agree entry for entry: event handling is idempotent, and a repeated
/// open or change event republishes the same diagnostics.
pub proof fn lemma_event_deterministic(
    text: Seq<char>,
    outcome: Result<(), SyntaxErrorKind>,
    v1: Seq<Diagnostic>,
    v2: Seq<Diagnostic>,
)
    requires
        v1.len() == (if outcome is Err {
            1int
        } else {
            0int
        }),
        v2.len() == (if outcome is Err {
            1int
        } else {
            0int
        }),
        outcome matches Err(e) ==> diag_matches(text, e, v1[0]) && diag_matches(text, e, v2[0]),
    ensures
        v1.len() == v2.len(),
        outcome matches Err(e) ==> {
            &&& v1[0].code@ == v2[0].code@
            &&& v1[0].message@ == v2[0].message@
            &&& v1[0].range == v2[0].range
            &&& v1[0].severity == v2[0].severity
            &&& v1[0].source@ == v2[0].source@
        },
{
    match outcome {
        Err(e) => lemma_translate_deterministic(text, e, v1[0], v2[0]),
        Ok(()) => (),
    }
}

} // verus!
