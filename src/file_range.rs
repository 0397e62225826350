use vstd::prelude::*;

use std::ops::Range;
use vstd::string::StringSliceAdditionalSpecFns;

use crate::lexer::{lex, tokenize_with_text, LexKind, LitKind};
use crate::source_map::{file_index, lemma_line_start_boundary, line_starts, SourceFile, SourceMap, SourceText};
use crate::span::{BytePos, RelativeBytePos, SpanData};
use crate::span_like::SpanLike;
use crate::text::{
    is_boundary, on_boundary, skip_white, skip_white_back, str_get, valid_range, white_end, white_len_at,
    white_start,
};

verus! {

/// Whether a token ends a text inside a comment or in the middle of an unfinished token: a line
/// comment, an unterminated block comment, an unterminated character, byte or byte string
/// literal, or a raw string literal that is not well formed. An unterminated string literal is
/// not counted: its quote may close a string that began earlier.
pub open spec fn ends_open(k: LexKind) -> bool {
    match k {
        LexKind::LineComment => true,
        LexKind::BlockComment { terminated } => !terminated,
        LexKind::Literal { kind, .. } => match kind {
            LitKind::Char { terminated } => !terminated,
            LitKind::Byte { terminated } => !terminated,
            LitKind::ByteStr { terminated } => !terminated,
            LitKind::RawStr { started, terminated, .. } => !(started && terminated),
            LitKind::RawByteStr { started, terminated, .. } => !(started && terminated),
            _ => false,
        },
        _ => false,
    }
}

/// Whether the last token of `b` is a line comment or an unfinished token.
pub open spec fn ends_with_line_comment_or_broken_spec(b: Seq<u8>) -> bool {
    lex(b).len() > 0 && ends_open(lex(b).last().0)
}

/// Checks whether the last token of `text` is a line comment or an unfinished token.
pub fn ends_with_line_comment_or_broken(text: &str) -> (r: bool)
    ensures
        r == ends_with_line_comment_or_broken_spec(text.spec_bytes()),
{
    let toks = tokenize_with_text(text);
    if toks.len() == 0 {
        return false;
    }
    let k = toks[toks.len() - 1].0;
    match k {
        LexKind::LineComment => true,
        LexKind::BlockComment { terminated } => !terminated,
        LexKind::Literal { kind, .. } => match kind {
            LitKind::Char { terminated } => !terminated,
            LitKind::Byte { terminated } => !terminated,
            LitKind::ByteStr { terminated } => !terminated,
            LitKind::RawStr { started, terminated, .. } => !(started && terminated),
            LitKind::RawByteStr { started, terminated, .. } => !(started && terminated),
            _ => false,
        },
        _ => false,
    }
}

/// Whether `b` holds any token other than whitespace.
pub open spec fn has_code(b: Seq<u8>) -> bool {
    exists|i: int| 0 <= i < lex(b).len() && (#[trigger] lex(b)[i]).0 != LexKind::Whitespace
}

/// Checks whether `text` holds any token other than whitespace.
fn has_code_exec(text: &str) -> (r: bool)
    ensures
        r == has_code(text.spec_bytes()),
{
    let toks = tokenize_with_text(text);
    let mut i: usize = 0;
    while i < toks.len()
        invariant
            toks@.len() == lex(text.spec_bytes()).len(),
            forall|j: int| 0 <= j < toks@.len() ==> (#[trigger] toks@[j]).0 == lex(text.spec_bytes())[j].0,
            i <= toks.len(),
            forall|j: int| 0 <= j < i ==> (#[trigger] lex(text.spec_bytes())[j]).0 == LexKind::Whitespace,
        decreases toks.len() - i,
    {
        if toks[i].0 != LexKind::Whitespace {
            assert(toks@[i as int].0 == lex(text.spec_bytes())[i as int].0);
            return true;
        }
        i = i + 1;
    }
    false
}

/// The index of the first line start at or after `pos`, or the number of lines.
pub open spec fn first_line_from(lines: Seq<u32>, pos: int) -> int
    decreases lines.len(),
{
    if lines.len() == 0 {
        0
    } else if lines.last() < pos {
        lines.len() as int
    } else {
        first_line_from(lines.drop_last(), pos)
    }
}

/// The index of the first line start after `pos`, or the number of lines.
pub open spec fn first_line_after(lines: Seq<u32>, pos: int) -> int
    decreases lines.len(),
{
    if lines.len() == 0 {
        0
    } else if lines.last() <= pos {
        lines.len() as int
    } else {
        first_line_after(lines.drop_last(), pos)
    }
}

/// In a sorted table, the partition point is where the first start at or after `pos` (or, not
/// strict, after it) stands.
pub proof fn lemma_partition(lines: Seq<u32>, pos: int, strict: bool, r: int)
    requires
        forall|i: int, j: int| 0 <= i < j < lines.len() ==> lines[i] < lines[j],
        0 <= r <= lines.len(),
        forall|k: int| 0 <= k < r ==> if strict { lines[k] < pos } else { lines[k] <= pos },
        forall|k: int| r <= k < lines.len() ==> if strict { lines[k] >= pos } else { lines[k] > pos },
    ensures
        strict ==> first_line_from(lines, pos) == r,
        !strict ==> first_line_after(lines, pos) == r,
    decreases lines.len(),
{
    if lines.len() > 0 && r < lines.len() {
        lemma_partition(lines.drop_last(), pos, strict, r);
    }
}

/// Where a line begins, given its index: the start of the next line (or the end of the file)
/// for the index just past the last line.
pub open spec fn start_or_end(lines: Seq<u32>, k: int, len: int) -> int {
    if 0 <= k < lines.len() {
        lines[k] as int
    } else {
        len
    }
}

/// Whether pulling the start of `lo..hi` back over whitespace to `nl` would put code into a
/// comment: the whitespace crosses a line break, the line it reaches ends in a line comment or
/// an unfinished token, and code follows the range on its last line.
pub open spec fn leading_white_blocked(t: Seq<u8>, lines: Seq<u32>, lo: int, hi: int) -> bool {
    let nl = white_start(t, lo);
    let post = first_line_after(lines, nl);
    let search_start = start_or_end(lines, post - 1, 0);
    let next_start = start_or_end(lines, first_line_from(lines, hi), t.len() as int);
    &&& post < lines.len()
    &&& lines[post] <= lo
    &&& valid_range(t, search_start, nl)
    &&& ends_with_line_comment_or_broken_spec(t.subrange(search_start, nl))
    &&& has_code(t.subrange(hi, next_start))
}

/// Whether `p` stands in `b` at `at`.
pub fn bytes_match(b: &[u8], at: usize, p: &[u8]) -> (r: bool)
    requires
        at + p@.len() <= b@.len(),
    ensures
        r == (b@.subrange(at as int, at + p@.len()) == p@),
{
    let n = b.len();
    let mut i: usize = 0;
    while i < p.len()
        invariant
            n == b@.len(),
            at + p@.len() <= b@.len(),
            i <= p@.len(),
            forall|j: int| 0 <= j < i ==> b@[at + j] == p@[j],
        decreases p.len() - i,
    {
        if b[at + i] != p[i] {
            assert(b@.subrange(at as int, at + p@.len())[i as int] != p@[i as int]);
            return false;
        }
        i = i + 1;
    }
    assert(b@.subrange(at as int, at + p@.len()) == p@);
    true
}

/// The file of `sm` that holds `lo`, with `lo..hi` taken relative to it, when that file's text
/// is loaded and the range is a well-formed range of it.
pub open spec fn range_in(sm: Seq<SourceFile>, lo: u32, hi: u32) -> Option<(SourceFile, int, int)> {
    match file_index(sm, lo) {
        Some(i) => {
            let f = sm[i];
            let s = f.spec_start().0 as int;
            if f.spec_src() is Some && s <= hi && valid_range(f.spec_src()->0, lo - s, hi - s) {
                Some((f, lo - s, hi - s))
            } else {
                None
            }
        },
        None => None,
    }
}

/// `pos` relative to the file that starts at `start` and holds `t`, when it lies within it.
pub open spec fn rel_in(start: u32, t: Seq<u8>, pos: u32) -> Option<int> {
    if start <= pos <= start + t.len() {
        Some(pos - start)
    } else {
        None
    }
}

/// The gap between the range `lo..hi` of the file and the range `o`: from `hi` to the start of
/// `o` when `o` lies after the range, from the end of `o` to `lo` when it lies before it (a range
/// that only touches the other gives the empty gap between them). `None` when the two overlap,
/// or `o` is not a well-formed range of the file.
pub open spec fn between(start: u32, t: Seq<u8>, lo: int, hi: int, o: SpanData) -> Option<(int, int)> {
    let os = rel_in(start, t, o.lo.0);
    let oe = rel_in(start, t, o.hi.0);
    if os is Some && oe is Some && valid_range(t, os->0, oe->0) {
        if hi <= os->0 {
            Some((hi, os->0))
        } else if lo >= oe->0 {
            Some((oe->0, lo))
        } else {
            None
        }
    } else {
        None
    }
}

/// Skipping whitespace reads only the bytes from where it starts: two texts of the same length
/// that agree from `from` on give the same end from any start at or after `from`.
proof fn lemma_white_end_agree(p1: Seq<u8>, p2: Seq<u8>, from: int, i: int)
    requires
        p1.len() == p2.len(),
        0 <= from <= i <= p1.len(),
        p1.subrange(from, p1.len() as int) == p2.subrange(from, p2.len() as int),
    ensures
        white_end(p1, i) == white_end(p2, i),
    decreases p1.len() - i,
{
    assert forall|j: int| from <= j < p1.len() implies p1[j] == p2[j] by {
        assert(p1[j] == p1.subrange(from, p1.len() as int)[j - from]);
        assert(p2[j] == p2.subrange(from, p2.len() as int)[j - from]);
    }
    assert(white_len_at(p1, i) == white_len_at(p2, i));
    if 0 <= i < p1.len() && white_len_at(p1, i) > 0 {
        lemma_white_end_agree(p1, p2, from, i + white_len_at(p1, i));
    }
}

/// The indentation of a line depends on that line alone: two texts whose line tables place the
/// line that holds `pos` at the same bounds, and whose bytes agree on that line, give the same
/// indentation, whatever else the texts hold (tabs or spaces on other lines, say).
pub proof fn lemma_line_indent_local(t1: Seq<u8>, lines1: Seq<u32>, t2: Seq<u8>, lines2: Seq<u32>, pos: int)
    requires
        first_line_after(lines1, pos) == first_line_after(lines2, pos),
        start_or_end(lines1, first_line_after(lines1, pos) - 1, 0) == start_or_end(
            lines2,
            first_line_after(lines2, pos) - 1,
            0,
        ),
        start_or_end(lines1, first_line_after(lines1, pos), t1.len() as int) == start_or_end(
            lines2,
            first_line_after(lines2, pos),
            t2.len() as int,
        ),
        ({
            let ls = start_or_end(lines1, first_line_after(lines1, pos) - 1, 0);
            let le = start_or_end(lines1, first_line_after(lines1, pos), t1.len() as int);
            0 <= ls <= le && le <= t1.len() && le <= t2.len() && t1.subrange(ls, le) == t2.subrange(ls, le)
        }),
    ensures
        line_indent(t1, lines1, pos) == line_indent(t2, lines2, pos),
{
    let k = first_line_after(lines1, pos) - 1;
    let ls = start_or_end(lines1, k, 0);
    let le = start_or_end(lines1, k + 1, t1.len() as int);
    let p1 = t1.subrange(0, le);
    let p2 = t2.subrange(0, le);
    assert(p1.subrange(ls, le) =~= t1.subrange(ls, le));
    assert(p2.subrange(ls, le) =~= t2.subrange(ls, le));
    lemma_white_end_agree(p1, p2, ls, ls);
    let we = white_end(p1, ls);
    crate::text::lemma_white_end_idempotent(p1, ls);
    lemma_white_end_le(p1, ls);
    assert(t1.subrange(ls, we) == t2.subrange(ls, we)) by {
        assert(t1.subrange(ls, we) =~= t1.subrange(ls, le).subrange(0, we - ls));
        assert(t2.subrange(ls, we) =~= t2.subrange(ls, le).subrange(0, we - ls));
    }
}

/// Skipping whitespace never passes the end of the text.
proof fn lemma_white_end_le(p: Seq<u8>, i: int)
    requires
        0 <= i <= p.len(),
    ensures
        white_end(p, i) <= p.len(),
    decreases p.len() - i,
{
    if 0 <= i < p.len() && white_len_at(p, i) > 0 {
        lemma_white_end_le(p, i + white_len_at(p, i));
    }
}

/// The gap between a range `lo..hi` and a well-formed range `os..oe` of the same file is
/// `hi..os` when the other range starts after this one ends, `oe..lo` when it ends before this
/// one starts (empty when they touch), and absent when the two overlap.
pub proof fn lemma_between_cases(start: u32, t: Seq<u8>, lo: int, hi: int, o: SpanData)
    requires
        rel_in(start, t, o.lo.0) is Some,
        rel_in(start, t, o.hi.0) is Some,
        valid_range(t, o.lo.0 - start, o.hi.0 - start),
    ensures
        hi <= o.lo.0 - start ==> between(start, t, lo, hi, o) == Some((hi, o.lo.0 - start)),
        o.hi.0 - start <= lo && !(hi <= o.lo.0 - start) ==> between(start, t, lo, hi, o) == Some((o.hi.0 - start, lo)),
        (o.lo.0 - start < hi && lo < o.hi.0 - start) ==> between(start, t, lo, hi, o) is None,
{
}

/// The indentation of the line that holds `pos`: the whitespace at the start of that line.
pub open spec fn line_indent(t: Seq<u8>, lines: Seq<u32>, pos: int) -> Seq<u8> {
    let k = first_line_after(lines, pos) - 1;
    let ls = start_or_end(lines, k, 0);
    let le = start_or_end(lines, k + 1, t.len() as int);
    t.subrange(ls, white_end(t.subrange(0, le), ls))
}

/// A range that `range_in` finds lies within its file, so its start plus its length fits.
pub proof fn lemma_range_in_len(sm: Seq<SourceFile>, lo: u32, hi: u32)
    requires
        range_in(sm, lo, hi) is Some,
    ensures
        ({
            let (f, a, b) = range_in(sm, lo, hi)->0;
            &&& 0 <= a <= b <= f.spec_src()->0.len()
            &&& lo as int + (b - a) == hi as int
        }),
{
}

/// Extending a range over its trailing whitespace is idempotent: once a range `once` has been
/// extended from `c`, a second extension targets `once`'s own range.
pub proof fn lemma_add_trailing_whitespace_idempotent(c: SourceFileRange, once: SourceFileRange)
    requires
        c.wf(),
        c.moved_to(once, c.spec_lo(), white_end(c.spec_text(), c.spec_hi())),
    ensures
        once.moved_to(once, once.spec_lo(), white_end(once.spec_text(), once.spec_hi())),
{
    crate::text::lemma_white_end_idempotent(c.spec_text(), c.spec_hi());
}

/// A file's text and a range within it, on which text probes and edits are made.
#[derive(Clone, Copy)]
pub struct SourceFileRange<'sm> {
    file: SourceText<'sm>,
    lo: RelativeBytePos,
    hi: RelativeBytePos,
}

impl<'sm> SourceFileRange<'sm> {
    /// The file.
    pub closed spec fn spec_file(&self) -> SourceFile {
        self.file.spec_file()
    }

    /// The whole text of the file.
    pub closed spec fn spec_text(&self) -> Seq<u8> {
        self.file.spec_bytes()
    }

    /// The whole text of the file, as a string.
    pub closed spec fn spec_str(&self) -> &'sm str {
        self.file.spec_str()
    }

    /// The start of the range, relative to the file.
    pub closed spec fn spec_lo(&self) -> int {
        self.lo.0 as int
    }

    /// The end of the range, relative to the file.
    pub closed spec fn spec_hi(&self) -> int {
        self.hi.0 as int
    }

    /// The file is well formed, its text is loaded and is the text held here, and the range is
    /// in order, within the text and on character boundaries.
    pub open spec fn wf(&self) -> bool {
        &&& self.spec_file().wf()
        &&& self.spec_file().spec_src() == Some(self.spec_text())
        &&& self.spec_str().spec_bytes() == self.spec_text()
        &&& valid_range(self.spec_text(), self.spec_lo(), self.spec_hi())
    }

    /// `other` is this cursor over the same file with the range `lo..hi`.
    pub open spec fn moved_to(&self, other: Self, lo: int, hi: int) -> bool {
        &&& other.spec_file() == self.spec_file()
        &&& other.spec_text() == self.spec_text()
        &&& other.spec_lo() == lo
        &&& other.spec_hi() == hi
    }

    /// The position `pos` relative to this file, when it lies within the file.
    pub open spec fn rel(&self, pos: BytePos) -> Option<int> {
        let f = self.spec_file().spec_start().0 as int;
        if f <= pos.0 <= f + self.spec_text().len() {
            Some(pos.0 - f)
        } else {
            None
        }
    }

    fn rel_exec(&self, pos: BytePos) -> (r: Option<u32>)
        requires
            self.wf(),
        ensures
            match self.rel(pos) {
                Some(p) => r == Some(p as u32),
                None => r is None,
            },
    {
        let f = self.file.file().start_pos().0;
        let n = self.file.as_str().as_bytes().len();
        if f <= pos.0 && ((pos.0 - f) as usize) <= n {
            Some(pos.0 - f)
        } else {
            None
        }
    }

    /// A cursor over the file that holds `range.start`, with `range` taken relative to that
    /// file. Returns `None` when no file holds the start, the file's text is not loaded, or the
    /// range is out of order, leaves the file, or splits a character.
    pub fn new(sm: &'sm SourceMap, range: Range<BytePos>) -> (r: Option<SourceFileRange<'sm>>)
        requires
            sm.wf(),
        ensures
            match range_in(sm@, range.start.0, range.end.0) {
                Some((f, lo, hi)) => r is Some && r->0.wf() && r->0.spec_file() == f && r->0.spec_lo()
                    == lo && r->0.spec_hi() == hi,
                None => r is None,
            },
    {
        let idx = match sm.lookup_file_index(range.start) {
            Some(i) => i,
            None => return None,
        };
        let count = sm.len();
        assert(crate::source_map::holds_pos(sm@, file_index(sm@, range.start.0)->0, range.start.0));
        assert(file_index(sm@, range.start.0) == Some(idx as int));
        let file = sm.file(idx);
        assert(sm@[idx as int].wf());
        let text = match SourceText::new(file) {
            Some(t) => t,
            None => return None,
        };
        let f = file.start_pos().0;
        if range.end.0 < f {
            return None;
        }
        let lo = range.start.0 - f;
        let hi = range.end.0 - f;
        let n = text.as_str().as_bytes().len();
        if lo <= hi && (hi as usize) <= n && is_boundary(text.as_str(), lo as usize) && is_boundary(
            text.as_str(),
            hi as usize,
        ) {
            Some(SourceFileRange { file: text, lo: RelativeBytePos(lo), hi: RelativeBytePos(hi) })
        } else {
            None
        }
    }

    /// The file that holds the range.
    pub fn file(&self) -> (r: &'sm SourceFile)
        ensures
            *r == self.spec_file(),
    {
        self.file.file()
    }

    /// Whether `other` lies in the same file as this range; files are told apart by where
    /// they start.
    pub fn is_same_file_as(&self, other: &Self) -> (r: bool)
        ensures
            r == (self.spec_file().spec_start() == other.spec_file().spec_start()),
    {
        self.file.file().start_pos() == other.file.file().start_pos()
    }

    /// The whole text of the file.
    pub fn file_text(&self) -> (r: &'sm str)
        ensures
            r.spec_bytes() == self.spec_text(),
    {
        self.file.as_str()
    }

    /// The text within the range, which is exactly the bytes that the range covers.
    pub fn current_text(&self) -> (r: Option<&'sm str>)
        requires
            self.wf(),
        ensures
            r is Some,
            r->0.spec_bytes() == self.spec_text().subrange(self.spec_lo(), self.spec_hi()),
    {
        str_get(self.file.as_str(), self.lo.0 as usize, self.hi.0 as usize)
    }

    /// The range, relative to the file.
    pub fn range(&self) -> (r: Range<RelativeBytePos>)
        ensures
            r.start.0 == self.spec_lo(),
            r.end.0 == self.spec_hi(),
    {
        self.lo..self.hi
    }

    /// The range in the combined address space.
    pub fn source_range(&self) -> (r: Range<BytePos>)
        requires
            self.wf(),
        ensures
            r.start.0 == self.spec_file().spec_start().0 + self.spec_lo(),
            r.end.0 == self.spec_file().spec_start().0 + self.spec_hi(),
    {
        let f = self.file.file().start_pos().0;
        BytePos(self.lo.0 + f)..BytePos(self.hi.0 + f)
    }

    /// A handle to the text within the range.
    pub fn into_text(self) -> (r: Option<SourceText<'sm>>)
        requires
            self.wf(),
        ensures
            r is Some,
            r->0.spec_bytes() == self.spec_text().subrange(self.spec_lo(), self.spec_hi()),
            r->0.spec_file() == self.spec_file(),
    {
        self.file.with_index(self.lo.0 as usize, self.hi.0 as usize)
    }

    /// A handle to the text within the range.
    pub fn as_text(&self) -> (r: Option<SourceText<'sm>>)
        requires
            self.wf(),
        ensures
            r is Some,
            r->0.spec_bytes() == self.spec_text().subrange(self.spec_lo(), self.spec_hi()),
            r->0.spec_file() == self.spec_file(),
    {
        self.file.with_index(self.lo.0 as usize, self.hi.0 as usize)
    }

    /// Replaces the range. The new range must be in order, within the file and on character
    /// boundaries.
    pub fn set_range(&mut self, range: Range<RelativeBytePos>) -> (r: &mut Self)
        requires
            old(self).wf(),
            valid_range(old(self).spec_text(), range.start.0 as int, range.end.0 as int),
        ensures
            old(self).moved_to(*r, range.start.0 as int, range.end.0 as int),
            r.wf(),
            *final(self) == *final(r),
    {
        self.lo = range.start;
        self.hi = range.end;
        self
    }

    fn set_bounds(&mut self, lo: u32, hi: u32) -> (r: &mut Self)
        requires
            old(self).wf(),
            valid_range(old(self).spec_text(), lo as int, hi as int),
        ensures
            old(self).moved_to(*r, lo as int, hi as int),
            r.wf(),
            *final(self) == *final(r),
    {
        self.lo = RelativeBytePos(lo);
        self.hi = RelativeBytePos(hi);
        self
    }

    /// Sets the range to the gap between it and `other`: from the end of this range to the
    /// start of `other` when `other` lies after it, from the end of `other` to the start of this
    /// range when `other` lies before it; ranges that only touch give the empty gap. Returns
    /// `None` when the two overlap, or when `other` is not a well-formed range of this file.
    pub fn set_range_between_other<S: SpanLike>(&mut self, other: S) -> (r: Option<&mut Self>)
        requires
            old(self).wf(),
        ensures
            match between(old(self).spec_file().spec_start().0, old(self).spec_text(), old(self).spec_lo(), old(self).spec_hi(), other.spec_span_data()) {
                Some((a, b)) => r is Some && old(self).moved_to(*r->0, a, b) && r->0.wf() && *final(self) == *final(r->0),
                None => r is None && *final(self) == *old(self),
            },
    {
        let o = other.into_range();
        let os = match self.rel_exec(o.start) {
            Some(p) => p,
            None => return None,
        };
        let oe = match self.rel_exec(o.end) {
            Some(p) => p,
            None => return None,
        };
        if !(os <= oe && is_boundary(self.file.as_str(), os as usize) && is_boundary(
            self.file.as_str(),
            oe as usize,
        )) {
            return None;
        }
        if self.hi.0 <= os {
            let lo = self.hi.0;
            Some(self.set_bounds(lo, os))
        } else if self.lo.0 >= oe {
            let hi = self.lo.0;
            Some(self.set_bounds(oe, hi))
        } else {
            None
        }
    }

    /// Moves the start of the range back to `pos` when `pos` lies at or before the current
    /// start. Returns `None` when it lies after it, outside the file, or inside a character.
    pub fn set_start_if_before(&mut self, pos: BytePos) -> (r: Option<&mut Self>)
        requires
            old(self).wf(),
        ensures
            ({
                let p = old(self).rel(pos);
                let ok = p is Some && on_boundary(old(self).spec_text(), p->0) && p->0 <= old(self).spec_lo();
                &&& ok ==> r is Some && old(self).moved_to(*r->0, p->0, old(self).spec_hi()) && r->0.wf()
                    && *final(self) == *final(r->0)
                &&& !ok ==> r is None && *final(self) == *old(self)
            }),
    {
        match self.rel_exec(pos) {
            Some(p) => {
                if is_boundary(self.file.as_str(), p as usize) && p <= self.lo.0 {
                    let hi = self.hi.0;
                    Some(self.set_bounds(p, hi))
                } else {
                    None
                }
            },
            None => None,
        }
    }

    /// Moves the start of the range to `pos` when `pos` lies within the range. Returns `None`
    /// otherwise, or when `pos` is inside a character.
    pub fn set_start_if_within(&mut self, pos: BytePos) -> (r: Option<&mut Self>)
        requires
            old(self).wf(),
        ensures
            ({
                let p = old(self).rel(pos);
                let ok = p is Some && on_boundary(old(self).spec_text(), p->0) && old(self).spec_lo() <= p->0
                    <= old(self).spec_hi();
                &&& ok ==> r is Some && old(self).moved_to(*r->0, p->0, old(self).spec_hi()) && r->0.wf()
                    && *final(self) == *final(r->0)
                &&& !ok ==> r is None && *final(self) == *old(self)
            }),
    {
        match self.rel_exec(pos) {
            Some(p) => {
                if is_boundary(self.file.as_str(), p as usize) && self.lo.0 <= p && p <= self.hi.0 {
                    let hi = self.hi.0;
                    Some(self.set_bounds(p, hi))
                } else {
                    None
                }
            },
            None => None,
        }
    }

    /// Moves the end of the range forward to `pos` when `pos` lies at or after the current end.
    /// Returns `None` when it lies before it, outside the file, or inside a character.
    pub fn set_end_if_after(&mut self, pos: BytePos) -> (r: Option<&mut Self>)
        requires
            old(self).wf(),
        ensures
            ({
                let p = old(self).rel(pos);
                let ok = p is Some && on_boundary(old(self).spec_text(), p->0) && old(self).spec_hi() <= p->0;
                &&& ok ==> r is Some && old(self).moved_to(*r->0, old(self).spec_lo(), p->0) && r->0.wf()
                    && *final(self) == *final(r->0)
                &&& !ok ==> r is None && *final(self) == *old(self)
            }),
    {
        match self.rel_exec(pos) {
            Some(p) => {
                if is_boundary(self.file.as_str(), p as usize) && self.hi.0 <= p {
                    let lo = self.lo.0;
                    Some(self.set_bounds(lo, p))
                } else {
                    None
                }
            },
            None => None,
        }
    }

    /// Moves the end of the range to `pos` when `pos` lies within the range. Returns `None`
    /// otherwise, or when `pos` is inside a character.
    pub fn set_end_if_within(&mut self, pos: BytePos) -> (r: Option<&mut Self>)
        requires
            old(self).wf(),
        ensures
            ({
                let p = old(self).rel(pos);
                let ok = p is Some && on_boundary(old(self).spec_text(), p->0) && old(self).spec_lo() <= p->0
                    <= old(self).spec_hi();
                &&& ok ==> r is Some && old(self).moved_to(*r->0, old(self).spec_lo(), p->0) && r->0.wf()
                    && *final(self) == *final(r->0)
                &&& !ok ==> r is None && *final(self) == *old(self)
            }),
    {
        match self.rel_exec(pos) {
            Some(p) => {
                if is_boundary(self.file.as_str(), p as usize) && self.lo.0 <= p && p <= self.hi.0 {
                    let lo = self.lo.0;
                    Some(self.set_bounds(lo, p))
                } else {
                    None
                }
            },
            None => None,
        }
    }

    /// Commits `new` as the range when it is a well-formed range of the file.
    fn commit(&mut self, new: Option<Range<usize>>) -> (r: Option<&mut Self>)
        requires
            old(self).wf(),
        ensures
            match new {
                Some(nr) => if valid_range(old(self).spec_text(), nr.start as int, nr.end as int) {
                    r is Some && old(self).moved_to(*r->0, nr.start as int, nr.end as int) && r->0.wf()
                        && *final(self) == *final(r->0)
                } else {
                    r is None && *final(self) == *old(self)
                },
                None => r is None && *final(self) == *old(self),
            },
    {
        match new {
            Some(nr) => {
                let n = self.file.as_str().as_bytes().len();
                if nr.start <= nr.end && nr.end <= n && is_boundary(self.file.as_str(), nr.start)
                    && is_boundary(self.file.as_str(), nr.end) {
                    assert(self.spec_file().wf());
                    Some(self.set_bounds(nr.start as u32, nr.end as u32))
                } else {
                    None
                }
            },
            None => None,
        }
    }

    /// Maps the range with `f`, which gets the whole text of the file and the current range and
    /// may give a new range. Commits the new range when it is a well-formed range of the file;
    /// returns `None` when `f` gives none, or gives one that is not.
    pub fn edit_range<F>(&mut self, f: F) -> (r: Option<&mut Self>)
        where
            F: FnOnce(&'sm str, Range<usize>) -> Option<Range<usize>>,
        requires
            old(self).wf(),
            f.requires((old(self).spec_str(), (old(self).spec_lo() as usize)..(old(self).spec_hi() as usize))),
        ensures
            exists|new: Option<Range<usize>>|
                #![trigger f.ensures((old(self).spec_str(), (old(self).spec_lo() as usize)..(old(self).spec_hi() as usize)), new)]
                f.ensures((old(self).spec_str(), (old(self).spec_lo() as usize)..(old(self).spec_hi() as usize)), new)
                && match new {
                    Some(nr) => if valid_range(old(self).spec_text(), nr.start as int, nr.end as int) {
                        r is Some && old(self).moved_to(*r->0, nr.start as int, nr.end as int) && r->0.wf()
                            && *final(self) == *final(r->0)
                    } else {
                        r is None && *final(self) == *old(self)
                    },
                    None => r is None && *final(self) == *old(self),
                },
    {
        let new = f(self.file.as_str(), (self.lo.0 as usize)..(self.hi.0 as usize));
        self.commit(new)
    }

    /// Trims the whitespace from the start of the range; this always succeeds.
    pub fn remove_leading_whitespace(&mut self) -> (r: Option<&mut Self>)
        requires
            old(self).wf(),
        ensures
            ({
                let t = old(self).spec_text();
                let p = white_end(t.subrange(0, old(self).spec_hi()), old(self).spec_lo());
                r is Some && old(self).moved_to(*r->0, p, old(self).spec_hi()) && r->0.wf()
                    && *final(self) == *final(r->0)
            }),
    {
        proof {
            crate::text::lemma_str_valid(self.spec_str());
            crate::text::lemma_prefix_white_end_boundary(self.spec_text(), self.spec_lo(), self.spec_hi());
        }
        let b = self.file.as_str().as_bytes();
        let p = skip_white(b, self.lo.0 as usize, self.hi.0 as usize);
        self.commit(Some(p..self.hi.0 as usize))
    }

    /// Extends the range over the whitespace that follows it; this always succeeds.
    pub fn add_trailing_whitespace(&mut self) -> (r: Option<&mut Self>)
        requires
            old(self).wf(),
        ensures
            ({
                let t = old(self).spec_text();
                let p = white_end(t, old(self).spec_hi());
                r is Some && old(self).moved_to(*r->0, old(self).spec_lo(), p) && r->0.wf()
                    && *final(self) == *final(r->0)
            }),
    {
        proof {
            crate::text::lemma_str_valid(self.spec_str());
            crate::text::lemma_white_end_boundary(self.spec_text(), self.spec_hi());
        }
        let b = self.file.as_str().as_bytes();
        let p = skip_white(b, self.hi.0 as usize, b.len());
        assert(b@.subrange(0, b@.len() as int) == b@);
        self.commit(Some(self.lo.0 as usize..p))
    }

    /// Extends the range back over the whitespace that precedes it, unless that would cross a
    /// line break into a line that ends in a line comment (or an unfinished token) while code
    /// follows the range on its own line: removing the extended range would then move that code
    /// into the comment. In that case the range is left as it is. Returns `None` when the text
    /// after the range up to the next line cannot be read, or the new start would split a
    /// character.
    pub fn add_leading_whitespace(&mut self) -> (r: Option<&mut Self>)
        requires
            old(self).wf(),
        ensures
            ({
                let t = old(self).spec_text();
                let lines = old(self).spec_file().spec_lines();
                let lo = old(self).spec_lo();
                let hi = old(self).spec_hi();
                &&& r is Some
                &&& r->0.wf()
                &&& *final(self) == *final(r->0)
                &&& leading_white_blocked(t, lines, lo, hi) ==> *r->0 == *old(self)
                &&& !leading_white_blocked(t, lines, lo, hi) ==> old(self).moved_to(*r->0, white_start(t, lo), hi)
            }),
    {
        let text = self.file.as_str();
        let b = text.as_bytes();
        let lo = self.lo.0;
        let hi = self.hi.0;
        let nl = skip_white_back(b, lo as usize);
        let file = self.file.file();
        let ghost lines = file.spec_lines();
        let ghost t = self.spec_text();
        proof {
            assert(self.spec_file().wf());
            crate::text::lemma_str_valid(self.spec_str());
            crate::text::lemma_white_start_boundary(t, lo as int);
        }
        let post = file.partition_lines(nl as u32, false);
        proof {
            lemma_partition(lines, nl as int, false, post as int);
        }
        let mut crossing = false;
        if post < file.line_count() {
            let search_line_end = file.line_start(post).unwrap();
            if search_line_end.0 <= lo {
                let search_start: usize = if post >= 1 { file.line_start(post - 1).unwrap().0 as usize } else { 0 };
                match str_get(text, search_start, nl) {
                    Some(before) => {
                        crossing = ends_with_line_comment_or_broken(before);
                    },
                    None => {},
                }
            }
        }
        if crossing {
            let next_line = file.partition_lines(hi, true);
            proof {
                lemma_partition(lines, hi as int, true, next_line as int);
            }
            let next_start: usize = match file.line_start(next_line) {
                Some(p) => p.0 as usize,
                None => b.len(),
            };
            proof {
                if (next_line as int) < lines.len() {
                    assert(lines[next_line as int] as int == line_starts(t)[next_line as int]);
                    lemma_line_start_boundary(t, next_line as int);
                }
            }
            let after = match str_get(text, hi as usize, next_start) {
                Some(a) => a,
                None => return None,
            };
            if has_code_exec(after) {
                return Some(self);
            }
        }
        self.commit(Some(nl..hi as usize))
    }

    /// Extends the range back over `pat` when the text just before the range ends with it.
    /// Returns `None` when it does not, or the new start would split a character.
    pub fn add_leading_match(&mut self, pat: &str) -> (r: Option<&mut Self>)
        requires
            old(self).wf(),
        ensures
            ({
                let t = old(self).spec_text();
                let p = pat.spec_bytes();
                let lo = old(self).spec_lo();
                let ok = p.len() <= lo && t.subrange(lo - p.len(), lo) == p && on_boundary(t, lo - p.len());
                &&& ok ==> r is Some && old(self).moved_to(*r->0, lo - p.len(), old(self).spec_hi()) && r->0.wf()
                    && *final(self) == *final(r->0)
                &&& !ok ==> r is None && *final(self) == *old(self)
            }),
    {
        let b = self.file.as_str().as_bytes();
        let pb = pat.as_bytes();
        let lo = self.lo.0 as usize;
        if pb.len() > lo || !bytes_match(b, lo - pb.len(), pb) {
            return None;
        }
        self.commit(Some(lo - pb.len()..self.hi.0 as usize))
    }

    /// Extends the range over `pat` when the text just after the range starts with it. Returns
    /// `None` when it does not, or the new end would split a character.
    pub fn add_trailing_match(&mut self, pat: &str) -> (r: Option<&mut Self>)
        requires
            old(self).wf(),
        ensures
            ({
                let t = old(self).spec_text();
                let p = pat.spec_bytes();
                let hi = old(self).spec_hi();
                let ok = hi + p.len() <= t.len() && t.subrange(hi, hi + p.len()) == p && on_boundary(t, hi + p.len());
                &&& ok ==> r is Some && old(self).moved_to(*r->0, old(self).spec_lo(), hi + p.len()) && r->0.wf()
                    && *final(self) == *final(r->0)
                &&& !ok ==> r is None && *final(self) == *old(self)
            }),
    {
        let b = self.file.as_str().as_bytes();
        let pb = pat.as_bytes();
        let hi = self.hi.0 as usize;
        if pb.len() > b.len() - hi || !bytes_match(b, hi, pb) {
            return None;
        }
        self.commit(Some(self.lo.0 as usize..hi + pb.len()))
    }

    /// Shrinks the range to `pat` when the range starts with it. Returns `None` when it does
    /// not, or the new end would split a character.
    pub fn set_to_prefix(&mut self, pat: &str) -> (r: Option<&mut Self>)
        requires
            old(self).wf(),
        ensures
            ({
                let t = old(self).spec_text();
                let p = pat.spec_bytes();
                let lo = old(self).spec_lo();
                let ok = lo + p.len() <= old(self).spec_hi() && t.subrange(lo, lo + p.len()) == p && on_boundary(t, lo + p.len());
                &&& ok ==> r is Some && old(self).moved_to(*r->0, lo, lo + p.len()) && r->0.wf()
                    && *final(self) == *final(r->0)
                &&& !ok ==> r is None && *final(self) == *old(self)
            }),
    {
        let b = self.file.as_str().as_bytes();
        let pb = pat.as_bytes();
        let lo = self.lo.0 as usize;
        let hi = self.hi.0 as usize;
        if pb.len() > hi - lo || !bytes_match(b, lo, pb) {
            return None;
        }
        self.commit(Some(lo..lo + pb.len()))
    }

    /// Shrinks the range to `pat` when the range ends with it. Returns `None` when it does not,
    /// or the new start would split a character.
    pub fn set_to_suffix(&mut self, pat: &str) -> (r: Option<&mut Self>)
        requires
            old(self).wf(),
        ensures
            ({
                let t = old(self).spec_text();
                let p = pat.spec_bytes();
                let hi = old(self).spec_hi();
                let ok = old(self).spec_lo() + p.len() <= hi && t.subrange(hi - p.len(), hi) == p && on_boundary(t, hi - p.len());
                &&& ok ==> r is Some && old(self).moved_to(*r->0, hi - p.len(), hi) && r->0.wf()
                    && *final(self) == *final(r->0)
                &&& !ok ==> r is None && *final(self) == *old(self)
            }),
    {
        let b = self.file.as_str().as_bytes();
        let pb = pat.as_bytes();
        let lo = self.lo.0 as usize;
        let hi = self.hi.0 as usize;
        if pb.len() > hi - lo || !bytes_match(b, hi - pb.len(), pb) {
            return None;
        }
        self.commit(Some(hi - pb.len()..hi))
    }

    /// The indentation of the line that the range starts on: the whitespace at the start of
    /// that line.
    pub fn get_line_indent(&self) -> (r: &'sm str)
        requires
            self.wf(),
        ensures
            r.spec_bytes() == line_indent(self.spec_text(), self.spec_file().spec_lines(), self.spec_lo()),
    {
        let text = self.file.as_str();
        let b = text.as_bytes();
        let file = self.file.file();
        proof {
            assert(self.spec_file().wf());
        }
        let line = match file.lookup_line(self.lo) {
            Some(l) => l,
            None => return "",
        };
        proof {
            let lines = file.spec_lines();
            lemma_partition(lines, self.spec_lo(), false, line + 1);
        }
        let _count = file.line_count();
        let start = file.line_start(line).unwrap().0 as usize;
        let end: usize = match file.line_start(line + 1) {
            Some(p) => p.0 as usize,
            None => b.len(),
        };
        proof {
            let t = self.spec_text();
            let lines = file.spec_lines();
            crate::text::lemma_str_valid(self.spec_str());
            assert(lines[line as int] as int == line_starts(t)[line as int]);
            lemma_line_start_boundary(t, line as int);
            if line + 1 < lines.len() {
                assert(lines[line + 1] as int == line_starts(t)[line + 1]);
                lemma_line_start_boundary(t, line + 1);
            }
            crate::text::lemma_prefix_white_end_boundary(t, start as int, end as int);
        }
        let we = skip_white(b, start, end);
        match str_get(text, start, we) {
            Some(s) => s,
            None => {
                proof {
                    reveal_strlit("");
                }
                ""
            },
        }
    }
} // impl

} // verus!
