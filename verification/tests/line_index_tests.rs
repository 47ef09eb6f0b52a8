use spwn_lsp::line_index::{LineIndex, LineRecord, pos_to_range};
use spwn_lsp::{Position, Range};

#[test]
fn query_zero_is_origin_for_any_text() {
    for text in ["", "a", "let x = ;\n", "a\r\nb\r\nc", "\n\n\n", "one\ntwo\nthree"] {
        let idx = LineIndex::build(text);
        assert_eq!(idx.query(0), Position { line: 0, character: 0 });
    }
}

#[test]
fn empty_text_has_one_empty_line() {
    let idx = LineIndex::build("");
    assert_eq!(idx.len(), 1);
    assert_eq!(idx.record(0), LineRecord { start: 0, len: 0 });
    assert_eq!(idx.query(0), Position { line: 0, character: 0 });
}

#[test]
fn records_cover_text_with_terminators() {
    let idx = LineIndex::build("a\nb\nc");
    assert_eq!(idx.len(), 3);
    assert_eq!(idx.record(0), LineRecord { start: 0, len: 2 });
    assert_eq!(idx.record(1), LineRecord { start: 2, len: 2 });
    assert_eq!(idx.record(2), LineRecord { start: 4, len: 1 });
}

#[test]
fn trailing_newline_belongs_to_its_line() {
    let idx = LineIndex::build("a\n");
    assert_eq!(idx.len(), 1);
    assert_eq!(idx.record(0), LineRecord { start: 0, len: 2 });
    assert_eq!(idx.query(2), Position { line: 0, character: 2 });
}

#[test]
fn query_end_of_text_clamps_to_last_line() {
    let texts = ["a\nb", "one\ntwo\nthree", "x", "a\r\nb\r\nc"];
    for text in texts {
        let normalized_len = text.replace("\r\n", "\n").chars().count();
        let idx = LineIndex::build(text);
        let p = idx.query(normalized_len);
        assert_eq!(p.line, idx.len() - 1);
    }
}

#[test]
fn query_past_end_still_clamps_to_last_line() {
    let idx = LineIndex::build("a\nb");
    let p = idx.query(100);
    assert_eq!(p.line, 1);
    assert_eq!(p.character, 98);
}

#[test]
fn carriage_return_line_feed_collapses_before_indexing() {
    // "a\r\nb\r\nc" normalizes to "a\nb\nc"; the character `b` then
    // sits at offset 2 and resolves to the start of line 1.
    let idx = LineIndex::build("a\r\nb\r\nc");
    assert_eq!(idx.len(), 3);
    assert_eq!(idx.record(0), LineRecord { start: 0, len: 2 });
    assert_eq!(idx.record(1), LineRecord { start: 2, len: 2 });
    assert_eq!(idx.record(2), LineRecord { start: 4, len: 1 });
    assert_eq!(idx.query(2), Position { line: 1, character: 0 });
}

#[test]
fn lone_carriage_return_is_kept() {
    let idx = LineIndex::build("a\rb");
    assert_eq!(idx.len(), 1);
    assert_eq!(idx.record(0), LineRecord { start: 0, len: 3 });
}

#[test]
fn mixed_line_endings_normalize() {
    let idx = LineIndex::build("a\nb\r\nc");
    assert_eq!(idx.len(), 3);
    assert_eq!(idx.query(4), Position { line: 2, character: 0 });
}

#[test]
fn query_is_monotonic_over_offsets() {
    let idx = LineIndex::build("one\ntwo\r\nthree\n\nfive");
    let mut prev = idx.query(0);
    for offset in 1..25 {
        let cur = idx.query(offset);
        assert!(prev.line < cur.line || (prev.line == cur.line && prev.character <= cur.character));
        prev = cur;
    }
}

#[test]
fn pos_to_range_resolves_both_ends() {
    let text = String::from("one\ntwo\nthree");
    let r = pos_to_range(&text, (5, 9));
    assert_eq!(
        r,
        Range {
            start: Position { line: 1, character: 1 },
            end: Position { line: 2, character: 1 },
        }
    );
}

#[test]
fn pos_to_range_zero_width_span() {
    let text = String::from("let x = ;\n");
    let r = pos_to_range(&text, (9, 9));
    assert_eq!(r.start, Position { line: 0, character: 9 });
    assert_eq!(r.end, Position { line: 0, character: 9 });
}
