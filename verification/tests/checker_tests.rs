use spwn_lsp::checker::{diagnostics_for, syntax_check};
use spwn_lsp::diagnostics::{Severity, SyntaxErrorKind};
use spwn_lsp::publish::PublishGate;

// The same conversion the shell applies: spwn's parser verdict as the
// library's plain error value.
fn run_parser(text: &str) -> Result<(), SyntaxErrorKind> {
    match spwn::parse_spwn(String::from(text), std::path::PathBuf::from("test.spwn")) {
        Ok(_) => Ok(()),
        Err(spwn::parser::SyntaxError::ExpectedErr { expected, found, pos, .. }) => {
            Err(SyntaxErrorKind::ExpectedErr { expected, found, start: pos.0, end: pos.1 })
        }
        Err(spwn::parser::SyntaxError::UnexpectedErr { found, pos, .. }) => {
            Err(SyntaxErrorKind::UnexpectedErr { found, start: pos.0, end: pos.1 })
        }
        Err(spwn::parser::SyntaxError::SyntaxError { message, pos, .. }) => {
            Err(SyntaxErrorKind::SyntaxError { message, start: pos.0, end: pos.1 })
        }
    }
}

#[test]
fn clean_text_clears_diagnostics() {
    let text = String::from("");
    let outcome = run_parser(&text);
    assert!(outcome.is_ok());
    let v = diagnostics_for(&text, outcome);
    assert!(v.is_empty());
}

#[test]
fn syntax_check_accepts_empty_document() {
    let text = String::from("");
    assert!(syntax_check(&text, run_parser(&text)).is_none());
}

#[test]
fn syntax_check_reports_first_error_positioned() {
    let text = String::from("let x = ;\n");
    let outcome = run_parser(&text);
    assert!(outcome.is_err());
    let d = syntax_check(&text, outcome).expect("a failed check yields a diagnostic");
    assert_eq!(d.severity, Severity::Error);
    assert_eq!(d.source, "SPWN Syntax");
    assert!(
        d.code == "ExpectedErr" || d.code == "UnexpectedErr" || d.code == "SyntaxError",
        "unexpected code {}",
        d.code
    );
}

#[test]
fn broken_text_publishes_exactly_one_diagnostic() {
    let text = String::from("bad(");
    let v = diagnostics_for(&text, run_parser(&text));
    assert_eq!(v.len(), 1);
    assert_eq!(v[0].severity, Severity::Error);
    assert_eq!(v[0].source, "SPWN Syntax");
}

#[test]
fn success_outcome_gives_empty_list() {
    let v = diagnostics_for(&String::from("anything"), Ok(()));
    assert!(v.is_empty());
}

#[test]
fn failure_outcome_gives_single_diagnostic_with_matching_code() {
    let text = String::from("x\ny");
    let err = SyntaxErrorKind::UnexpectedErr { found: String::from("'}'"), start: 2, end: 3 };
    let v = diagnostics_for(&text, Err(err));
    assert_eq!(v.len(), 1);
    assert_eq!(v[0].code, "UnexpectedErr");
    assert_eq!(v[0].message, "unexpected '}'");
}

#[test]
fn handling_same_event_twice_is_idempotent() {
    let text = String::from("bad(");
    let v1 = diagnostics_for(&text, run_parser(&text));
    let v2 = diagnostics_for(&text, run_parser(&text));
    assert_eq!(v1.len(), v2.len());
    assert_eq!(v1[0].code, v2[0].code);
    assert_eq!(v1[0].message, v2[0].message);
    assert_eq!(v1[0].range, v2[0].range);
    assert_eq!(v1[0].severity, v2[0].severity);
    assert_eq!(v1[0].source, v2[0].source);
}

#[test]
fn later_edit_supersedes_earlier_one() {
    // Two consecutive changed events: a broken text, then a repaired
    // one. Processed in order, the final published list must reflect
    // the repaired text, i.e. be empty.
    let broken = String::from("bad(");
    let repaired = String::from("good()");
    let first = diagnostics_for(&broken, run_parser(&broken));
    let second = diagnostics_for(&repaired, run_parser(&repaired));
    assert_eq!(first.len(), 1);
    assert!(second.is_empty());

    let mut gate = PublishGate::new();
    let mut published: Option<usize> = None;
    if gate.accept(1) {
        published = Some(first.len());
    }
    if gate.accept(2) {
        published = Some(second.len());
    }
    assert_eq!(published, Some(0));
}

#[test]
fn stale_publish_is_dropped_after_newer_one() {
    // The same two events racing: the repaired text's publish arrives
    // first, and the broken text's late publish must be dropped.
    let mut gate = PublishGate::new();
    assert!(gate.accept(2));
    assert!(!gate.accept(1));
}

#[test]
fn publish_gate_never_moves_backwards() {
    let mut gate = PublishGate::new();
    assert!(gate.accept(0));
    assert!(gate.accept(5));
    assert!(gate.accept(5));
    assert!(!gate.accept(4));
    assert!(gate.accept(6));
}
