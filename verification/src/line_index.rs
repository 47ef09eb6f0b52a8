//! Line indexing for a document snapshot: `\r\n` terminators are first
//! collapsed to `\n`, then an ordered table of line records is built,
//! and flat character offsets are resolved to line/character positions
//! by binary search over the line start offsets.

use vstd::prelude::*;

verus! {

use crate::Position;
use crate::Range;

/// One line of a normalized document: the offset of its first character
/// and its character count, counting the terminating line feed (the
/// final line has no terminator and counts only its own characters).
#[derive(Clone, Copy, PartialEq, Eq, Structural, Debug)]
pub struct LineRecord {
    pub start: usize,
    pub len: usize,
}

/// The text with every `\r\n` collapsed to `\n`: the form against which
/// all offsets are measured.
pub open spec fn normalize_spec(s: Seq<char>) -> Seq<char>
    decreases s.len(),
{
    if s.len() == 0 {
        Seq::empty()
    } else if s.len() >= 2 && s[0] == '\r' && s[1] == '\n' {
        seq!['\n'] + normalize_spec(s.skip(2))
    } else {
        seq![s[0]] + normalize_spec(s.skip(1))
    }
}

/// The character count of the first line of `s`, counting its
/// terminating `\n`; the whole of `s` if it holds no `\n`.
pub open spec fn first_line_len(s: Seq<char>) -> int
    decreases s.len(),
{
    if s.len() == 0 {
        0
    } else if s[0] == '\n' {
        1
    } else {
        1 + first_line_len(s.skip(1))
    }
}

pub proof fn lemma_first_line_len_bounds(s: Seq<char>)
    requires
        s.len() > 0,
    ensures
        1 <= first_line_len(s) <= s.len(),
    decreases s.len(),
{
    if s[0] == '\n' {
    } else if s.len() > 1 {
        lemma_first_line_len_bounds(s.skip(1));
    } else {
        assert(s.skip(1).len() == 0);
        assert(first_line_len(s.skip(1)) == 0);
    }
}

/// The line records of a nonempty document, as (start, length) pairs,
/// the first line starting at `base`.
pub open spec fn records_from(s: Seq<char>, base: int) -> Seq<(int, int)>
    decreases s.len(),
    via records_from_decreases
{
    if s.len() == 0 {
        Seq::empty()
    } else {
        seq![(base, first_line_len(s))] + records_from(
            s.skip(first_line_len(s)),
            base + first_line_len(s),
        )
    }
}

#[via_fn]
proof fn records_from_decreases(s: Seq<char>, base: int) {
    if s.len() > 0 {
        lemma_first_line_len_bounds(s);
    }
}

/// All line records of a normalized document; an empty document still
/// has one empty line, so every offset query has a line to land on.
pub open spec fn records_spec(s: Seq<char>) -> Seq<(int, int)> {
    if s.len() == 0 {
        seq![(0int, 0int)]
    } else {
        records_from(s, 0)
    }
}

/// What a line table must look like: at least one record, the first at
/// offset 0, each record ending exactly where the next begins, lengths
/// non-negative, and starts strictly increasing.
pub open spec fn wf_records(rs: Seq<(int, int)>) -> bool {
    &&& rs.len() >= 1
    &&& rs[0].0 == 0
    &&& forall|i: int| 0 <= i < rs.len() - 1 ==> #[trigger] rs[i].0 + rs[i].1 == rs[i + 1].0
    &&& forall|i: int| 0 <= i < rs.len() ==> #[trigger] rs[i].1 >= 0
    &&& forall|i: int, j: int| 0 <= i < j < rs.len() ==> rs[i].0 < rs[j].0
}

proof fn lemma_records_from_props(s: Seq<char>, base: int)
    requires
        s.len() > 0,
    ensures
        ({
            let rs = records_from(s, base);
            &&& rs.len() >= 1
            &&& rs[0].0 == base
            &&& rs.last().0 + rs.last().1 == base + s.len()
            &&& forall|i: int| 0 <= i < rs.len() ==> #[trigger] rs[i].0 >= base
            &&& forall|i: int| 0 <= i < rs.len() - 1 ==> #[trigger] rs[i].0 + rs[i].1 == rs[i + 1].0
            &&& forall|i: int| 0 <= i < rs.len() ==> #[trigger] rs[i].1 >= 1
            &&& forall|i: int, j: int| 0 <= i < j < rs.len() ==> rs[i].0 < rs[j].0
        }),
    decreases s.len(),
{
    lemma_first_line_len_bounds(s);
    let l = first_line_len(s);
    let rs = records_from(s, base);
    let tail = records_from(s.skip(l), base + l);
    if s.len() == l {
        assert(s.skip(l).len() == 0);
        assert(rs =~= seq![(base, l)]);
    } else {
        lemma_records_from_props(s.skip(l), base + l);
        assert forall|i: int| 0 <= i < rs.len() implies #[trigger] rs[i].0 >= base by {
            if i >= 1 {
                assert(rs[i] == tail[i - 1]);
            }
        }
        assert forall|i: int| 0 <= i < rs.len() - 1 implies #[trigger] rs[i].0 + rs[i].1 == rs[i + 1].0 by {
            if i >= 1 {
                assert(rs[i] == tail[i - 1]);
                assert(rs[i + 1] == tail[i]);
            } else {
                assert(rs[1] == tail[0]);
            }
        }
        assert forall|i: int| 0 <= i < rs.len() implies #[trigger] rs[i].1 >= 1 by {
            if i >= 1 {
                assert(rs[i] == tail[i - 1]);
            }
        }
        assert forall|i: int, j: int| 0 <= i < j < rs.len() implies rs[i].0 < rs[j].0 by {
            assert(rs[j] == tail[j - 1]);
            if i >= 1 {
                assert(rs[i] == tail[i - 1]);
            }
        }
        assert(rs.last() == tail.last());
    }
}

/// The record table of any normalized text is well formed and covers
/// the text exactly: the last record ends at the text's length.
pub proof fn lemma_records_wf(s: Seq<char>)
    ensures
        wf_records(records_spec(s)),
        records_spec(s).last().0 + records_spec(s).last().1 == s.len(),
{
    if s.len() > 0 {
        lemma_records_from_props(s, 0);
    }
}

/// The index of the line record whose start is the greatest one at or
/// below `o` (line 0 for offsets at or before the first start).
pub open spec fn line_idx(rs: Seq<(int, int)>, o: int) -> int
    decreases rs.len(),
{
    if rs.len() <= 1 {
        0
    } else if o < rs[1].0 {
        0
    } else {
        1 + line_idx(rs.skip(1), o)
    }
}

/// The position an offset resolves to: its line, and its distance from
/// that line's start.
pub open spec fn query_spec(rs: Seq<(int, int)>, o: int) -> (int, int) {
    (line_idx(rs, o), o - rs[line_idx(rs, o)].0)
}

/// The chosen line starts at or before the offset, and the next line
/// (if any) starts strictly after it.
pub proof fn lemma_line_idx_props(rs: Seq<(int, int)>, o: int)
    requires
        rs.len() >= 1,
        forall|i: int, j: int| 0 <= i < j < rs.len() ==> rs[i].0 < rs[j].0,
        o >= rs[0].0,
    ensures
        0 <= line_idx(rs, o) < rs.len(),
        rs[line_idx(rs, o)].0 <= o,
        line_idx(rs, o) + 1 < rs.len() ==> o < rs[line_idx(rs, o) + 1].0,
    decreases rs.len(),
{
    if rs.len() <= 1 {
    } else if o < rs[1].0 {
    } else {
        let tail = rs.skip(1);
        assert forall|i: int, j: int| 0 <= i < j < tail.len() implies tail[i].0 < tail[j].0 by {
            assert(tail[i] == rs[i + 1]);
            assert(tail[j] == rs[j + 1]);
        }
        assert(tail[0] == rs[1]);
        lemma_line_idx_props(tail, o);
        let k = line_idx(tail, o);
        assert(tail[k] == rs[k + 1]);
        if k + 1 < tail.len() {
            assert(tail[k + 1] == rs[k + 2]);
        }
    }
}

proof fn lemma_first_line_len_at(s: Seq<char>, m: int)
    requires
        0 <= m < s.len(),
        s[m] == '\n',
        forall|j: int| 0 <= j < m ==> s[j] != '\n',
    ensures
        first_line_len(s) == m + 1,
    decreases m,
{
    if m > 0 {
        let t = s.skip(1);
        assert(t[m - 1] == s[m]);
        assert forall|j: int| 0 <= j < m - 1 implies t[j] != '\n' by {
            assert(t[j] == s[j + 1]);
        }
        lemma_first_line_len_at(t, m - 1);
    }
}

proof fn lemma_first_line_len_none(s: Seq<char>)
    requires
        s.len() > 0,
        forall|j: int| 0 <= j < s.len() ==> s[j] != '\n',
    ensures
        first_line_len(s) == s.len(),
    decreases s.len(),
{
    let t = s.skip(1);
    if s.len() > 1 {
        assert forall|j: int| 0 <= j < t.len() implies t[j] != '\n' by {
            assert(t[j] == s[j + 1]);
        }
        lemma_first_line_len_none(t);
    } else {
        assert(t.len() == 0);
        assert(first_line_len(t) == 0);
    }
}

/// Any index with those two properties is the one `line_idx` picks.
pub proof fn lemma_line_idx_unique(rs: Seq<(int, int)>, o: int, i: int)
    requires
        rs.len() >= 1,
        forall|i: int, j: int| 0 <= i < j < rs.len() ==> rs[i].0 < rs[j].0,
        0 <= i < rs.len(),
        rs[i].0 <= o,
        i + 1 < rs.len() ==> o < rs[i + 1].0,
    ensures
        i == line_idx(rs, o),
    decreases rs.len(),
{
    if rs.len() <= 1 {
    } else if o < rs[1].0 {
        if i >= 1 {
            assert(rs[1].0 <= rs[i].0);
        }
    } else {
        assert(i >= 1);
        let tail = rs.skip(1);
        assert forall|i: int, j: int| 0 <= i < j < tail.len() implies tail[i].0 < tail[j].0 by {
            assert(tail[i] == rs[i + 1]);
            assert(tail[j] == rs[j + 1]);
        }
        assert(tail[i - 1] == rs[i]);
        if i < tail.len() {
            assert(tail[i] == rs[i + 1]);
        }
        lemma_line_idx_unique(tail, o, i - 1);
    }
}

/// For any text, offset 0 resolves to line 0, character 0.
pub proof fn lemma_query_at_zero(rs: Seq<(int, int)>)
    requires
        wf_records(rs),
    ensures
        query_spec(rs, 0) == (0int, 0int),
{
    if rs.len() > 1 {
        assert(rs[0].0 < rs[1].0);
    }
    lemma_line_idx_unique(rs, 0, 0);
}

/// Querying the normalized end-of-text offset lands on the last line:
/// the line index is clamped, never out of range.
pub proof fn lemma_query_at_end(s: Seq<char>)
    ensures
        ({
            let rs = records_spec(s);
            query_spec(rs, s.len() as int).0 == rs.len() - 1
        }),
{
    lemma_records_wf(s);
    let rs = records_spec(s);
    let n = rs.len();
    assert(rs[n - 1].1 >= 0);
    lemma_line_idx_unique(rs, s.len() as int, n - 1);
}

/// Later offsets never resolve to an earlier line, nor, on the same
/// line, to an earlier character.
pub proof fn lemma_query_monotonic(rs: Seq<(int, int)>, a: int, b: int)
    requires
        wf_records(rs),
        0 <= a <= b,
    ensures
        query_spec(rs, a).0 <= query_spec(rs, b).0,
        query_spec(rs, a).0 == query_spec(rs, b).0 ==> query_spec(rs, a).1 <= query_spec(rs, b).1,
{
    lemma_line_idx_props(rs, a);
    lemma_line_idx_props(rs, b);
    let ia = line_idx(rs, a);
    let ib = line_idx(rs, b);
    if ia > ib {
        assert(b < rs[ib + 1].0);
        if ib + 1 < ia {
            assert(rs[ib + 1].0 < rs[ia].0);
        }
        assert(false);
    }
}

/// The characters of `s`, in order.
fn chars_of(s: &str) -> (v: Vec<char>)
    ensures
        v@ == s@,
{
    broadcast use vstd::string::axiom_spec_iter;

    let mut v: Vec<char> = Vec::new();
    for c in it: s.chars()
        invariant
            it.seq() == s@,
            v@ == it.seq().take(it.index()),
    {
        v.push(c);
        proof {
            assert(v@ =~= it.seq().take(it.index() + 1));
        }
    }
    proof {
        assert(v@ =~= s@);
    }
    v
}

/// Collapses every `\r\n` in `chars` to a single `\n`.
fn normalize_chars(chars: &Vec<char>) -> (r: Vec<char>)
    ensures
        r@ == normalize_spec(chars@),
{
    let mut r: Vec<char> = Vec::new();
    let mut i: usize = 0;
    proof {
        assert(chars@.skip(0) =~= chars@);
        assert(r@ + normalize_spec(chars@) =~= normalize_spec(chars@));
    }
    while i < chars.len()
        invariant
            i <= chars.len(),
            r@ + normalize_spec(chars@.skip(i as int)) == normalize_spec(chars@),
        decreases chars.len() - i,
    {
        let c = chars[i];
        let ghost s = chars@.skip(i as int);
        if c == '\r' && i + 1 < chars.len() && chars[i + 1] == '\n' {
            proof {
                assert(s[0] == '\r' && s[1] == '\n');
                assert(s.skip(2) =~= chars@.skip(i + 2));
                assert(r@.push('\n') =~= r@ + seq!['\n']);
                assert((r@ + seq!['\n']) + normalize_spec(chars@.skip(i + 2)) =~= r@
                    + normalize_spec(s));
            }
            r.push('\n');
            i = i + 2;
        } else {
            proof {
                assert(s[0] == c);
                assert(s.skip(1) =~= chars@.skip(i + 1));
                assert(r@.push(c) =~= r@ + seq![c]);
                assert((r@ + seq![c]) + normalize_spec(chars@.skip(i + 1)) =~= r@
                    + normalize_spec(s));
            }
            r.push(c);
            i = i + 1;
        }
    }
    proof {
        assert(chars@.skip(chars@.len() as int) =~= Seq::<char>::empty());
        assert(r@ + Seq::<char>::empty() =~= r@);
    }
    r
}

/// The (start, length) pairs a record table holds.
pub open spec fn recs_view(v: Seq<LineRecord>) -> Seq<(int, int)> {
    v.map(|_i: int, r: LineRecord| (r.start as int, r.len as int))
}

/// Lays one record per line of the already-normalized text.
fn build_records(norm: &Vec<char>) -> (records: Vec<LineRecord>)
    ensures
        recs_view(records@) == records_spec(norm@),
{
    let mut records: Vec<LineRecord> = Vec::new();
    if norm.len() == 0 {
        records.push(LineRecord { start: 0, len: 0 });
        proof {
            assert(recs_view(records@) =~= records_spec(norm@));
        }
        return records;
    }
    let mut start: usize = 0;
    let mut i: usize = 0;
    proof {
        assert(norm@.skip(0) =~= norm@);
        assert(recs_view(records@) + records_from(norm@, 0) =~= records_from(norm@, 0));
    }
    while i < norm.len()
        invariant
            start <= i <= norm.len(),
            norm@.len() > 0,
            forall|k: int| start <= k < i ==> norm@[k] != '\n',
            recs_view(records@) + records_from(norm@.skip(start as int), start as int)
                == records_from(norm@, 0),
        decreases norm.len() - i,
    {
        if norm[i] == '\n' {
            let rec = LineRecord { start, len: i + 1 - start };
            let ghost s = norm@.skip(start as int);
            proof {
                assert(s[i - start] == norm@[i as int]);
                assert forall|j: int| 0 <= j < i - start implies s[j] != '\n' by {
                    assert(s[j] == norm@[start + j]);
                }
                lemma_first_line_len_at(s, i - start);
                assert(s.skip(i + 1 - start) =~= norm@.skip(i + 1));
                assert(recs_view(records@.push(rec)) =~= recs_view(records@) + seq![
                    (start as int, i + 1 - start),
                ]);
                assert((recs_view(records@) + seq![(start as int, i + 1 - start)])
                    + records_from(norm@.skip(i + 1), i + 1) =~= recs_view(records@)
                    + records_from(s, start as int));
            }
            records.push(rec);
            start = i + 1;
        }
        i = i + 1;
    }
    if start < norm.len() {
        let rec = LineRecord { start, len: norm.len() - start };
        let ghost s = norm@.skip(start as int);
        proof {
            assert forall|j: int| 0 <= j < s.len() implies s[j] != '\n' by {
                assert(s[j] == norm@[start + j]);
            }
            lemma_first_line_len_none(s);
            assert(s.skip(s.len() as int).len() == 0);
            assert(records_from(s.skip(s.len() as int), start as int + s.len()) == Seq::<(
                int,
                int,
            )>::empty());
            assert(records_from(s, start as int) =~= seq![(start as int, norm@.len() - start)]);
            assert(recs_view(records@.push(rec)) =~= recs_view(records@) + seq![
                (start as int, norm@.len() - start),
            ]);
        }
        records.push(rec);
        proof {
            assert(recs_view(records@) == records_from(norm@, 0));
        }
    } else {
        proof {
            assert(norm@.skip(start as int).len() == 0);
            assert(recs_view(records@) + Seq::<(int, int)>::empty() =~= recs_view(records@));
        }
    }
    records
}

/// An ordered table of the line records of one document snapshot,
/// built fresh from the text and never mutated afterwards.
pub struct LineIndex {
    records: Vec<LineRecord>,
}

impl View for LineIndex {
    type V = Seq<(int, int)>;

    closed spec fn view(&self) -> Seq<(int, int)> {
        recs_view(self.records@)
    }
}

impl LineIndex {
    /// A well-formed index: what `build` always establishes and
    /// `query` relies on.
    pub open spec fn wf(&self) -> bool {
        wf_records(self@)
    }

    /// Builds the index for one document snapshot: the text is
    /// normalized, then one record is laid down per line.
    pub fn build(text: &str) -> (idx: LineIndex)
        ensures
            idx@ == records_spec(normalize_spec(text@)),
            idx.wf(),
    {
        let chars = chars_of(text);
        let norm = normalize_chars(&chars);
        let records = build_records(&norm);
        proof {
            lemma_records_wf(normalize_spec(text@));
        }
        LineIndex { records }
    }

    /// The number of lines the index covers.
    pub fn len(&self) -> (n: usize)
        ensures
            n == self@.len(),
    {
        self.records.len()
    }

    /// The record of line `i`.
    pub fn record(&self, i: usize) -> (r: LineRecord)
        requires
            i < self@.len(),
        ensures
            (r.start as int, r.len as int) == self@[i as int],
    {
        self.records[i]
    }

    /// Resolves a flat character offset against the normalized text:
    /// the line whose start is the greatest at or below the offset, and
    /// the offset's distance from that start. Offsets past the last
    /// line's start clamp to the last line.
    pub fn query(&self, offset: usize) -> (p: Position)
        requires
            self.wf(),
        ensures
            (p.line as int, p.character as int) == query_spec(self@, offset as int),
    {
        let mut lo: usize = 0;
        let mut hi: usize = self.records.len();
        while lo + 1 < hi
            invariant
                self.wf(),
                lo < hi <= self.records.len(),
                self@.len() == self.records@.len(),
                self@[lo as int].0 <= offset as int,
                hi < self.records.len() ==> (offset as int) < self@[hi as int].0,
            decreases hi - lo,
        {
            let mid = lo + (hi - lo) / 2;
            if self.records[mid].start <= offset {
                lo = mid;
            } else {
                hi = mid;
            }
        }
        proof {
            lemma_line_idx_unique(self@, offset as int, lo as int);
        }
        let start = self.records[lo].start;
        Position { line: lo, character: offset - start }
    }
}

/// Positions the two ends of an offset span against the text the span
/// was reported on, exactly as `LineIndex::build` plus `query` would.
pub fn pos_to_range(text: &String, span: (usize, usize)) -> (r: Range)
    ensures
        ({
            let rs = records_spec(normalize_spec(text@));
            &&& (r.start.line as int, r.start.character as int) == query_spec(rs, span.0 as int)
            &&& (r.end.line as int, r.end.character as int) == query_spec(rs, span.1 as int)
        }),
{
    let idx = LineIndex::build(text.as_str());
    let start = idx.query(span.0);
    let end = idx.query(span.1);
    Range { start, end }
}

} // verus!
