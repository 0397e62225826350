use vstd::prelude::*;

use vstd::string::StringSliceAdditionalSpecFns;

use crate::diagnostic::{concat, Applicability, Diagnostic, Lint, Suggestion};
use crate::file_range::{between, bytes_match, line_indent, range_in, rel_in, SourceFileRange};
use crate::lexer::{first_token_of, lex, token_fits, tokenize_with_text, LexKind};
use crate::hygiene::{walk_span_to_context, walk_to, HygieneData};
use crate::source_map::{SourceFile, SourceMap};
use crate::span::{BytePos, RelativeBytePos, Span, SpanData, SyntaxContext};
use crate::text::{
    is_boundary, on_boundary, skip_white, white_end, white_len_at, white_len_at_exec, white_len_before,
    white_len_before_exec,
};
use vstd::utf8::{decode_utf8, encode_utf8_decode_utf8};

verus! {

/// The operator window that the operator formatting checks look at. The cursor starts on the
/// operator at `op` and is extended to `end`; its text must start with `a`, then `b`, then a
/// whitespace character. The window is the first `n` bytes from the operator. Gives, in the
/// combined address space, the start of the window, its end, and the end of the whitespace that
/// follows it.
pub open spec fn op_window(
    sm: Seq<SourceFile>,
    op: SpanData,
    end: BytePos,
    a: Seq<u8>,
    b: Seq<u8>,
    n: int,
) -> Option<(int, int, int)> {
    match range_in(sm, op.lo.0, op.hi.0) {
        Some((f, lo, hi)) => {
            let t = f.spec_src()->0;
            let s = f.spec_start().0 as int;
            let e = end.0 - s;
            let k = a.len() + b.len();
            if s <= end.0 && e <= t.len() && on_boundary(t, e) && hi <= e && lo + k <= e
                && t.subrange(lo, lo + a.len()) == a && t.subrange(lo + a.len(), lo + k) == b
                && white_len_at(t.subrange(0, e), lo + k) > 0 && lo + n <= t.len() && on_boundary(
                t,
                lo + n,
            ) {
                Some((s + lo, s + lo + n, s + white_end(t, lo + n)))
            } else {
                None
            }
        },
        None => None,
    }
}

/// Finds the operator window (see `op_window`); gives the window and the window with the
/// whitespace after it.
fn op_window_exec(sm: &SourceMap, op: SpanData, end: BytePos, a: &str, b: &str, n: usize) -> (r:
    Option<(u32, u32, u32)>)
    requires
        sm.wf(),
    ensures
        match op_window(sm@, op, end, a.spec_bytes(), b.spec_bytes(), n as int) {
            Some((x, y, z)) => r == Some((x as u32, y as u32, z as u32)),
            None => r is None,
        },
{
    let mut cursor = match SourceFileRange::new(sm, op.lo..op.hi) {
        Some(c) => c,
        None => return None,
    };
    let cr = match cursor.set_end_if_after(end) {
        Some(c) => c,
        None => return None,
    };
    let text = cr.file_text();
    let t = text.as_bytes();
    let lo = cr.range().start.0 as usize;
    let hi = cr.range().end.0 as usize;
    let ab = a.as_bytes();
    let bb = b.as_bytes();
    if ab.len() > hi - lo || bb.len() > hi - lo - ab.len() {
        return None;
    }
    let k = ab.len() + bb.len();
    if !bytes_match(t, lo, ab) || !bytes_match(t, lo + ab.len(), bb) {
        return None;
    }
    let w = white_len_at_exec(t, lo + k);
    if w == 0 || w > hi - (lo + k) {
        return None;
    }
    assert(white_len_at(t@.subrange(0, hi as int), lo + k) == w);
    if n > t.len() - lo || !is_boundary(text, lo + n) {
        return None;
    }
    let cr = cr.set_range(RelativeBytePos(lo as u32)..RelativeBytePos((lo + n) as u32));
    let window = cr.source_range();
    let cr = match cr.add_trailing_whitespace() {
        Some(c) => c,
        None => return None,
    };
    let with_space = cr.source_range();
    Some((window.start.0, window.end.0, with_space.end.0))
}

/// Checks an assignment whose right side starts with a unary operator written right after the
/// `=` (as in `a =- 1`), which looks like a compound assignment operator. `op_str` is the unary
/// operator. The finding offers two edits: reversing the characters (`-=`) and separating them
/// (`= -`). Nothing is reported for code from a macro defined elsewhere.
pub fn check_assign(
    sm: &SourceMap,
    h: &HygieneData,
    assign: SpanData,
    rhs_ctxt: SyntaxContext,
    op: SpanData,
    op_str: &str,
) -> (r: Option<Diagnostic>)
    requires
        sm.wf(),
    ensures
        ({
            let w = op_window(sm@, op, assign.hi, "=".spec_bytes(), op_str.spec_bytes(), 2);
            let ext = assign.ctxt.0 != 0 && assign.ctxt.0 < h@.len() && h@[assign.ctxt.0 as int].external;
            let ok = rhs_ctxt == assign.ctxt && op.ctxt == assign.ctxt && w is Some && !ext;
            &&& !ok ==> r is None
            &&& ok ==> r is Some && {
                let d = r->0;
                let (x, y, z) = w->0;
                let lint_sp = Span::spec_new(BytePos(x as u32), BytePos(y as u32), assign.ctxt, assign.parent);
                &&& d.lint == Lint::SuspiciousAssignmentFormatting
                &&& d.message@ == "this looks similar to a compound assignment operator"@
                &&& d.span == lint_sp
                &&& d.note is None
                &&& d.suggestions@.len() == 2
                &&& d.suggestions@[0].span == lint_sp
                &&& d.suggestions@[0].replacement@ == op_str@ + "="@
                &&& d.suggestions@[0].applicability == Applicability::MaybeIncorrect
                &&& d.suggestions@[1].span == Span::spec_new(BytePos(x as u32), BytePos(z as u32), assign.ctxt, assign.parent)
                &&& d.suggestions@[1].replacement@ == "= "@ + op_str@
                &&& d.suggestions@[1].applicability == Applicability::MaybeIncorrect
            }
        }),
{
    if rhs_ctxt != assign.ctxt || op.ctxt != assign.ctxt {
        return None;
    }
    let (x, y, z) = match op_window_exec(sm, op, assign.hi, "=", op_str, 2) {
        Some(w) => w,
        None => return None,
    };
    if h.in_external_macro(assign.ctxt) {
        return None;
    }
    let lint_sp = Span::new(BytePos(x), BytePos(y), assign.ctxt, assign.parent);
    let reverse = Suggestion {
        span: lint_sp,
        message: String::from_str("reverse the characters"),
        replacement: concat(op_str, "="),
        applicability: Applicability::MaybeIncorrect,
    };
    let separate = Suggestion {
        span: Span::new(BytePos(x), BytePos(z), assign.ctxt, assign.parent),
        message: String::from_str("separate the characters"),
        replacement: concat("= ", op_str),
        applicability: Applicability::MaybeIncorrect,
    };
    Some(Diagnostic {
        lint: Lint::SuspiciousAssignmentFormatting,
        span: lint_sp,
        message: String::from_str("this looks similar to a compound assignment operator"),
        suggestions: vec![reverse, separate],
        note: None,
    })
}


/// Checks a binary operator whose right side starts with a unary operator written right after
/// it (as in `a &&!b`), which makes the two look like one operator. The finding offers to add a
/// space between them; that edit is `MachineApplicable` only for code written by the user and
/// `MaybeIncorrect` for code from a macro expansion. Nothing is reported for code from a macro
/// defined elsewhere.
pub fn check_un_op(
    sm: &SourceMap,
    h: &HygieneData,
    bin_expr_ctxt: SyntaxContext,
    bin_op: SpanData,
    bin_op_str: &str,
    rhs: SpanData,
    un_op_str: &str,
) -> (r: Option<Diagnostic>)
    requires
        sm.wf(),
        bin_op_str.spec_bytes().len() + un_op_str.spec_bytes().len() <= usize::MAX,
    ensures
        ({
            let n = bin_op_str.spec_bytes().len() + un_op_str.spec_bytes().len();
            let w = op_window(sm@, bin_op, rhs.hi, bin_op_str.spec_bytes(), un_op_str.spec_bytes(), n as int);
            let ctxt = bin_op.ctxt;
            let ext = ctxt.0 != 0 && ctxt.0 < h@.len() && h@[ctxt.0 as int].external;
            let ok = ctxt == bin_expr_ctxt && rhs.ctxt == ctxt && w is Some && !ext;
            &&& !ok ==> r is None
            &&& ok ==> r is Some && {
                let d = r->0;
                let (x, y, z) = w->0;
                &&& d.lint == Lint::SuspiciousUnaryOpFormatting
                &&& d.message@ == "this formatting makes the binary and unary operators look like a single operator"@
                &&& d.span == Span::spec_new(BytePos(x as u32), BytePos(y as u32), ctxt, bin_op.parent)
                &&& d.note is None
                &&& d.suggestions@.len() == 1
                &&& d.suggestions@[0].span == Span::spec_new(BytePos(x as u32), BytePos(z as u32), ctxt, bin_op.parent)
                &&& d.suggestions@[0].replacement@ == bin_op_str@ + " "@ + un_op_str@
                &&& d.suggestions@[0].applicability == (if ctxt.0 == 0 {
                    Applicability::MachineApplicable
                } else {
                    Applicability::MaybeIncorrect
                })
            }
        }),
{
    let ctxt = bin_op.ctxt;
    if ctxt != bin_expr_ctxt || rhs.ctxt != ctxt {
        return None;
    }
    let n = bin_op_str.as_bytes().len() + un_op_str.as_bytes().len();
    let (x, y, z) = match op_window_exec(sm, bin_op, rhs.hi, bin_op_str, un_op_str, n) {
        Some(w) => w,
        None => return None,
    };
    if h.in_external_macro(ctxt) {
        return None;
    }
    let spaced = concat(bin_op_str, " ");
    let mut replacement = spaced;
    replacement.append(un_op_str);
    let sugg = Suggestion {
        span: Span::new(BytePos(x), BytePos(z), ctxt, bin_op.parent),
        message: String::from_str("add a space between"),
        replacement,
        applicability: if ctxt.is_root() {
            Applicability::MachineApplicable
        } else {
            Applicability::MaybeIncorrect
        },
    };
    Some(Diagnostic {
        lint: Lint::SuspiciousUnaryOpFormatting,
        span: Span::new(BytePos(x), BytePos(y), ctxt, bin_op.parent),
        message: String::from_str(
            "this formatting makes the binary and unary operators look like a single operator",
        ),
        suggestions: vec![sugg],
        note: None,
    })
}


/// The number of line feeds in `b`.
pub open spec fn nl_count(b: Seq<u8>) -> int
    decreases b.len(),
{
    if b.len() == 0 {
        0
    } else {
        nl_count(b.drop_last()) + if b.last() == 10u8 { 1int } else { 0int }
    }
}

/// Counts the line feeds of `s`.
fn count_nl(s: &str) -> (r: usize)
    ensures
        r == nl_count(s.spec_bytes()),
{
    let b = s.as_bytes();
    let mut c: usize = 0;
    let mut i: usize = 0;
    while i < b.len()
        invariant
            i <= b@.len(),
            c == nl_count(b@.subrange(0, i as int)),
            c <= i,
        decreases b.len() - i,
    {
        assert(b@.subrange(0, i + 1).drop_last() == b@.subrange(0, i as int));
        if b[i] == 10u8 {
            c = c + 1;
        }
        i = i + 1;
    }
    assert(b@.subrange(0, b@.len() as int) == b@);
    c
}

/// The bytes of `else`.
pub open spec fn else_bytes() -> Seq<u8> {
    seq![101u8, 108u8, 115u8, 101u8]
}

/// Line feeds seen, less one for a line ended by a comment.
pub open spec fn after_ws(lf: int, skip: bool, n: int) -> int {
    if n == 0 {
        lf
    } else {
        lf + n - if skip { 1int } else { 0int }
    }
}

/// The part of the gap before `else`, read from token `i`: gives `Some(r)` when the answer is
/// known before the `else` (`r` is the answer), or `None` with the index after `else` and the
/// line count.
pub open spec fn before_else(ts: Seq<(LexKind, Seq<u8>)>, i: int, lf: int, skip: bool) -> (Option<bool>, int, int)
    decreases ts.len() - i,
{
    if i < 0 || i >= ts.len() {
        (Some(false), i, lf)
    } else {
        let (k, text) = ts[i];
        match k {
            LexKind::Whitespace => if nl_count(text) == 0 {
                before_else(ts, i + 1, lf, skip)
            } else {
                before_else(ts, i + 1, after_ws(lf, skip, nl_count(text)), false)
            },
            LexKind::LineComment => before_else(ts, i + 1, lf, lf != 0),
            LexKind::BlockComment { .. } => {
                let lf2 = if lf == 0 {
                    if nl_count(text) > 0 { 1int } else { 0int }
                } else {
                    lf
                };
                before_else(ts, i + 1, lf2, lf2 != 0)
            },
            LexKind::Ident => if text == else_bytes() {
                if skip || lf > 1 {
                    (Some(true), i + 1, lf)
                } else {
                    (None, i + 1, lf)
                }
            } else {
                (Some(false), i, lf)
            },
            _ => (Some(false), i, lf),
        }
    }
}

/// The part of the gap after `else`, read from token `i`.
pub open spec fn after_else(ts: Seq<(LexKind, Seq<u8>)>, i: int, lf: int, skip: bool, allow: bool) -> bool
    decreases ts.len() - i,
{
    if i < 0 || i >= ts.len() {
        skip || lf > if allow { 1int } else { 0int }
    } else {
        let (k, text) = ts[i];
        match k {
            LexKind::Whitespace => if nl_count(text) == 0 {
                after_else(ts, i + 1, lf, skip, allow)
            } else {
                after_else(ts, i + 1, after_ws(lf, skip, nl_count(text)), false, allow)
            },
            LexKind::BlockComment { .. } => after_else(ts, i + 1, lf, lf != 0, allow || lf != 0),
            LexKind::LineComment => true,
            _ => false,
        }
    }
}

/// Whether the text between a block and the `else` branch that follows it hides the `else`:
/// a blank line before or after `else`, a comment before `else` or its branch when it starts a
/// line, `else` and `if` on separate lines (unless every line between holds only block
/// comments), or `else` and its block on separate lines under the same exception.
pub open spec fn else_formatting_spec(b: Seq<u8>, is_else_block: bool) -> bool {
    else_tokens_spec(lex(b), is_else_block)
}

/// `else_formatting_spec` over the tokens of the text, each with its text.
pub open spec fn else_tokens_spec(ts: Seq<(LexKind, Seq<u8>)>, is_else_block: bool) -> bool {
    let (res, j, lf) = before_else(ts, 0, 0, false);
    match res {
        Some(v) => v,
        None => after_else(ts, j, 0, false, is_else_block && lf != 0),
    }
}

/// The total length of the texts of the first `i` tokens.
pub open spec fn text_total(ts: Seq<(LexKind, Seq<u8>)>, i: int) -> int
    decreases i,
{
    if i <= 0 || i > ts.len() {
        0
    } else {
        text_total(ts, i - 1) + ts[i - 1].1.len()
    }
}

proof fn lemma_total_cons(x: (LexKind, Seq<u8>), ts: Seq<(LexKind, Seq<u8>)>, k: int)
    requires
        0 <= k <= ts.len(),
    ensures
        text_total(seq![x] + ts, k + 1) == x.1.len() + text_total(ts, k),
    decreases k,
{
    let xs = seq![x] + ts;
    if k > 0 {
        lemma_total_cons(x, ts, k - 1);
        assert(xs[k] == ts[k - 1]);
        assert(text_total(xs, k + 1) == text_total(xs, k) + xs[k].1.len());
        assert(text_total(ts, k) == text_total(ts, k - 1) + ts[k - 1].1.len());
    } else {
        assert(text_total(xs, 1) == text_total(xs, 0) + xs[0].1.len());
    }
}

/// The tokens' texts together are no longer than the text they were read from.
proof fn lemma_lex_total(b: Seq<u8>)
    ensures
        text_total(lex(b), lex(b).len() as int) <= b.len(),
    decreases b.len(),
{
    if b.len() > 0 {
        let t = first_token_of(b);
        if token_fits(b, t) {
            let rest = b.subrange(t.len as int, b.len() as int);
            lemma_lex_total(rest);
            lemma_total_cons((t.kind, b.subrange(0, t.len as int)), lex(rest), lex(rest).len() as int);
        }
    }
}

proof fn lemma_total_mono(ts: Seq<(LexKind, Seq<u8>)>, i: int, j: int)
    requires
        0 <= i <= j <= ts.len(),
    ensures
        text_total(ts, i) <= text_total(ts, j),
    decreases j - i,
{
    if i < j {
        lemma_total_mono(ts, i, j - 1);
    }
}

proof fn lemma_nl_count_le(b: Seq<u8>)
    ensures
        0 <= nl_count(b) <= b.len(),
    decreases b.len(),
{
    if b.len() > 0 {
        lemma_nl_count_le(b.drop_last());
    }
}

/// The tokens of a token list, each with the bytes of its text.
pub open spec fn token_texts(ts: Seq<(LexKind, &str)>) -> Seq<(LexKind, Seq<u8>)> {
    Seq::new(ts.len(), |i: int| (ts[i].0, ts[i].1.spec_bytes()))
}

/// Decides `else_formatting_spec` for the text `src` between a block and its `else` branch.
pub fn check_else_formatting(src: &str, is_else_block: bool) -> (r: bool)
    ensures
        r == else_formatting_spec(src.spec_bytes(), is_else_block),
{
    let ts = tokenize_with_text(src);
    let _len = src.as_bytes().len();
    proof {
        lemma_lex_total(src.spec_bytes());
        assert(token_texts(ts@) =~= lex(src.spec_bytes()));
    }
    check_else_tokens(ts.as_slice(), is_else_block)
}

/// Decides `else_tokens_spec` for the tokens (each with its text) of the text between a block
/// and its `else` branch.
pub fn check_else_tokens(ts: &[(LexKind, &str)], is_else_block: bool) -> (r: bool)
    requires
        text_total(token_texts(ts@), ts@.len() as int) <= usize::MAX,
    ensures
        r == else_tokens_spec(token_texts(ts@), is_else_block),
{
    let ghost sts = token_texts(ts@);
    let mut lf: usize = 0;
    let mut skip = false;
    let mut i: usize = 0;
    let mut found_else = false;
    while i < ts.len()
        invariant
            sts == token_texts(ts@),
            ts@.len() == sts.len(),
            forall|x: int| 0 <= x < ts@.len() ==> (#[trigger] ts@[x]).0 == sts[x].0 && ts@[x].1.spec_bytes() == sts[x].1,
            i <= ts.len(),
            lf <= text_total(sts, i as int),
            text_total(sts, sts.len() as int) <= usize::MAX,
            !found_else ==> before_else(sts, i as int, lf as int, skip) == before_else(sts, 0, 0, false),
            found_else ==> before_else(sts, 0, 0, false) == (None::<bool>, i as int, lf as int),
        ensures
            !found_else ==> before_else(sts, i as int, lf as int, skip) == before_else(sts, 0, 0, false),
            found_else ==> before_else(sts, 0, 0, false) == (None::<bool>, i as int, lf as int),
            !found_else ==> i == ts.len(),
        decreases ts.len() - i + (if found_else { 0int } else { 1int }),
    {
        if found_else {
            break;
        }
        let (k, text) = ts[i];
        assert(sts[i as int].0 == k && sts[i as int].1 == text.spec_bytes());
        assert(sts[i as int] == (k, text.spec_bytes()));
        proof {
            lemma_nl_count_le(text.spec_bytes());
            lemma_total_mono(sts, i + 1, sts.len() as int);
        }
        match k {
            LexKind::Whitespace => {
                let n = count_nl(text);
                if n != 0 {
                    lf = lf + n - if skip { 1usize } else { 0usize };
                    skip = false;
                }
            },
            LexKind::LineComment => {
                skip = lf != 0;
            },
            LexKind::BlockComment { .. } => {
                if lf == 0 {
                    lf = if count_nl(text) > 0 { 1 } else { 0 };
                }
                skip = lf != 0;
            },
            LexKind::Ident => {
                if is_else(text) {
                    if skip || lf > 1 {
                        assert(before_else(sts, i as int, lf as int, skip) == (Some(true), i + 1, lf as int));
                        return true;
                    }
                    found_else = true;
                } else {
                    assert(before_else(sts, i as int, lf as int, skip) == (Some(false), i as int, lf as int));
                    return false;
                }
            },
            _ => {
                assert(before_else(sts, i as int, lf as int, skip) == (Some(false), i as int, lf as int));
                return false;
            },
        }
        i = i + 1;
    }
    if !found_else {
        return false;
    }
    let allow0 = is_else_block && lf != 0;
    let mut allow = allow0;
    let mut skip2 = false;
    let mut lf2: usize = 0;
    let j0 = i;
    while i < ts.len()
        invariant
            sts == token_texts(ts@),
            ts@.len() == sts.len(),
            forall|x: int| 0 <= x < ts@.len() ==> (#[trigger] ts@[x]).0 == sts[x].0 && ts@[x].1.spec_bytes() == sts[x].1,
            j0 <= i <= ts.len(),
            before_else(sts, 0, 0, false) == (None::<bool>, j0 as int, lf as int),
            allow0 == (is_else_block && lf != 0),
            lf2 <= text_total(sts, i as int),
            text_total(sts, sts.len() as int) <= usize::MAX,
            after_else(sts, i as int, lf2 as int, skip2, allow) == after_else(sts, j0 as int, 0, false, allow0),
        decreases ts.len() - i,
    {
        let (k, text) = ts[i];
        assert(sts[i as int].0 == k && sts[i as int].1 == text.spec_bytes());
        assert(sts[i as int] == (k, text.spec_bytes()));
        proof {
            lemma_nl_count_le(text.spec_bytes());
            lemma_total_mono(sts, i + 1, sts.len() as int);
        }
        match k {
            LexKind::Whitespace => {
                let n = count_nl(text);
                if n != 0 {
                    lf2 = lf2 + n - if skip2 { 1usize } else { 0usize };
                    skip2 = false;
                }
            },
            LexKind::BlockComment { .. } => {
                skip2 = lf2 != 0;
                allow = allow || skip2;
            },
            LexKind::LineComment => {
                assert(after_else(sts, i as int, lf2 as int, skip2, allow));
                return true;
            },
            _ => {
                assert(!after_else(sts, i as int, lf2 as int, skip2, allow));
                return false;
            },
        }
        i = i + 1;
    }
    skip2 || lf2 > if allow { 1usize } else { 0usize }
}

/// Whether `s` is `else`.
fn is_else(s: &str) -> (r: bool)
    ensures
        r == (s.spec_bytes() == else_bytes()),
{
    let b = s.as_bytes();
    let r = b.len() == 4 && b[0] == 101u8 && b[1] == 108u8 && b[2] == 115u8 && b[3] == 101u8;
    proof {
        if r {
            assert(b@ == else_bytes());
        }
    }
    r
}


/// Checks the text between the `then` block of an `if` and its `else` branch for formatting that
/// hides the `else` (see `else_formatting_spec`). The finding covers that text and carries a
/// note; nothing is reported for code from a macro defined elsewhere.
pub fn check_else(
    sm: &SourceMap,
    h: &HygieneData,
    expr_ctxt: SyntaxContext,
    then: SpanData,
    else_: SpanData,
    is_else_block: bool,
) -> (r: Option<Diagnostic>)
    requires
        sm.wf(),
    ensures
        ({
            let ext = then.ctxt.0 != 0 && then.ctxt.0 < h@.len() && h@[then.ctxt.0 as int].external;
            let c = range_in(sm@, then.lo.0, then.hi.0);
            let (f, clo, chi) = c->0;
            let t = f.spec_src()->0;
            let g = between(f.spec_start().0, t, clo, chi, else_);
            let (ga, gb) = g->0;
            let ok = then.ctxt == expr_ctxt && then.ctxt == else_.ctxt && c is Some && g is Some
                && else_formatting_spec(t.subrange(ga, gb), is_else_block) && !ext;
            &&& !ok ==> r is None
            &&& ok ==> r is Some && {
                let d = r->0;
                let s = f.spec_start().0 as int;
                &&& d.lint == Lint::SuspiciousElseFormatting
                &&& d.span == Span::spec_new(BytePos((s + ga) as u32), BytePos((s + gb) as u32), then.ctxt, then.parent)
                &&& d.suggestions@.len() == 0
                &&& d.message@ == if is_else_block {
                    "this is an `else {..}` but the formatting might hide it"@
                } else {
                    "this is an `else if` but the formatting might hide it"@
                }
                &&& d.note is Some
                &&& d.note->0@ == if is_else_block {
                    "to remove this lint, remove the `else` or remove the new line between `else` and `{..}`"@
                } else {
                    "to remove this lint, remove the `else` or remove the new line between `else` and `if`"@
                }
            }
        }),
{
    if then.ctxt != expr_ctxt || then.ctxt != else_.ctxt {
        return None;
    }
    let mut cursor = match SourceFileRange::new(sm, then.lo..then.hi) {
        Some(c) => c,
        None => return None,
    };
    let cr = match cursor.set_range_between_other(else_) {
        Some(c) => c,
        None => return None,
    };
    let src = cr.current_text().unwrap();
    if !check_else_formatting(src, is_else_block) || h.in_external_macro(then.ctxt) {
        return None;
    }
    let range = cr.source_range();
    let (message, note) = if is_else_block {
        (
            "this is an `else {..}` but the formatting might hide it",
            "to remove this lint, remove the `else` or remove the new line between `else` and `{..}`",
        )
    } else {
        (
            "this is an `else if` but the formatting might hide it",
            "to remove this lint, remove the `else` or remove the new line between `else` and `if`",
        )
    };
    Some(Diagnostic {
        lint: Lint::SuspiciousElseFormatting,
        span: Span::new(range.start, range.end, then.ctxt, then.parent),
        message: String::from_str(message),
        suggestions: Vec::new(),
        note: Some(String::from_str(note)),
    })
}

/// Whether `b` starts with `if` and ends with `}`.
pub open spec fn if_block_text(b: Seq<u8>) -> bool {
    b.len() >= 2 && b[0] == 105u8 && b[1] == 102u8 && b.last() == 125u8
}

/// Whether `b` is whitespace on one line: whitespace characters only, none of them a line feed.
pub open spec fn same_line_white(b: Seq<u8>) -> bool {
    white_end(b, 0) == b.len() && nl_count(b) == 0
}

/// Checks an `if` expression followed by a block or another `if` on the same line with only
/// whitespace between them (as in `if a {} {}`), which reads as if an `else` were missing. The
/// finding offers to add an `else` or a line break (keeping the indentation of the line).
pub fn check_missing_else(sm: &SourceMap, ctxt: SyntaxContext, first: SpanData, second: SpanData) -> (r:
    Option<Diagnostic>)
    requires
        sm.wf(),
    ensures
        ({
            let c = range_in(sm@, first.lo.0, first.hi.0);
            let (f, clo, chi) = c->0;
            let t = f.spec_src()->0;
            let g = between(f.spec_start().0, t, clo, chi, second);
            let (ga, gb) = g->0;
            let ok = first.ctxt == ctxt && second.ctxt == ctxt && c is Some && if_block_text(
                t.subrange(clo, chi),
            ) && g is Some && same_line_white(t.subrange(ga, gb));
            &&& !ok ==> r is None
            &&& ok ==> r is Some && {
                let d = r->0;
                let s = f.spec_start().0 as int;
                let sp = Span::spec_new(BytePos((s + ga) as u32), BytePos((s + gb) as u32), first.ctxt, first.parent);
                &&& d.lint == Lint::PossibleMissingElse
                &&& d.message@ == "this is formatted as though there should be an `else`"@
                &&& d.span == sp
                &&& d.note is None
                &&& d.suggestions@.len() == 2
                &&& d.suggestions@[0].span == sp
                &&& d.suggestions@[0].replacement@ == " else "@
                &&& d.suggestions@[0].applicability == Applicability::MaybeIncorrect
                &&& d.suggestions@[1].span == sp
                &&& d.suggestions@[1].replacement@ == "\n"@ + decode_utf8(line_indent(t, f.spec_lines(), ga))
                &&& d.suggestions@[1].applicability == Applicability::MaybeIncorrect
            }
        }),
{
    if first.ctxt != ctxt || second.ctxt != ctxt {
        return None;
    }
    let mut cursor = match SourceFileRange::new(sm, first.lo..first.hi) {
        Some(c) => c,
        None => return None,
    };
    let head = cursor.current_text().unwrap().as_bytes();
    let n = head.len();
    if !(n >= 2 && head[0] == 105u8 && head[1] == 102u8 && head[n - 1] == 125u8) {
        return None;
    }
    let cr = match cursor.set_range_between_other(second) {
        Some(c) => c,
        None => return None,
    };
    let gap = cr.current_text().unwrap();
    let gap_bytes = gap.as_bytes();
    if skip_white(gap_bytes, 0, gap_bytes.len()) != gap_bytes.len() || count_nl(gap) != 0 {
        assert(gap_bytes@.subrange(0, gap_bytes@.len() as int) == gap_bytes@);
        return None;
    }
    assert(gap_bytes@.subrange(0, gap_bytes@.len() as int) == gap_bytes@);
    let range = cr.source_range();
    let sp = Span::new(range.start, range.end, first.ctxt, first.parent);
    let indent = cr.get_line_indent();
    proof {
        encode_utf8_decode_utf8(indent@);
    }
    let add_else = Suggestion {
        span: sp,
        message: String::from_str("add an `else`"),
        replacement: String::from_str(" else "),
        applicability: Applicability::MaybeIncorrect,
    };
    let line_break = Suggestion {
        span: sp,
        message: String::from_str("add a line break"),
        replacement: concat("\n", indent),
        applicability: Applicability::MaybeIncorrect,
    };
    Some(Diagnostic {
        lint: Lint::PossibleMissingElse,
        span: sp,
        message: String::from_str("this is formatted as though there should be an `else`"),
        suggestions: vec![add_else, line_break],
        note: None,
    })
}


/// Whether `op` (as bytes) is one of the binary operators that also read as unary ones: `&&`,
/// `*`, `-` and `&`.
pub open spec fn unary_like(op: Seq<u8>) -> bool {
    op == seq![38u8, 38u8] || op == seq![42u8] || op == seq![45u8] || op == seq![38u8]
}

fn unary_like_exec(op: &str) -> (r: bool)
    ensures
        r == unary_like(op.spec_bytes()),
{
    let b = op.as_bytes();
    let r = (b.len() == 2 && b[0] == 38u8 && b[1] == 38u8) || (b.len() == 1 && (b[0] == 42u8
        || b[0] == 45u8 || b[0] == 38u8));
    proof {
        if b@.len() == 2 && b@[0] == 38u8 && b@[1] == 38u8 {
            assert(b@ == seq![38u8, 38u8]);
        }
        if b@.len() == 1 {
            assert(b@ == seq![b@[0]]);
        }
    }
    r
}


/// Checks an element of an array, tuple or argument list that is a binary expression whose
/// operator (`&&`, `*`, `-` or `&`) has whitespace before it and none after it, as in
/// `[a -b]`: it reads like two elements with a missing comma. `e` is the element, `op` its
/// operator and `lhs` its left operand. The finding offers a comma after the left operand or
/// a space after the operator. Nothing is reported when the left operand cannot be traced back
/// to `ctxt`, or for code from a macro defined elsewhere.
pub fn check_missing_comma(
    sm: &SourceMap,
    h: &HygieneData,
    ctxt: SyntaxContext,
    e: SpanData,
    op: SpanData,
    op_str: &str,
    lhs: Span,
) -> (r: Option<Diagnostic>)
    requires
        sm.wf(),
    ensures
        ({
            let c = range_in(sm@, op.lo.0, op.hi.0);
            let (f, lo, hi) = c->0;
            let t = f.spec_src()->0;
            let s = f.spec_start().0 as int;
            let e_hi = rel_in(f.spec_start().0, t, e.hi.0);
            let end = e_hi->0;
            let k = op_str.spec_bytes().len();
            let lw = walk_to(h@, lhs.spec_data(), ctxt);
            let ext = ctxt.0 != 0 && ctxt.0 < h@.len() && h@[ctxt.0 as int].external;
            let ok = e.ctxt == ctxt && unary_like(op_str.spec_bytes()) && op.ctxt == e.ctxt && c is Some
                && e_hi is Some && on_boundary(t, end) && hi <= end && lo + k < end
                && t.subrange(lo, lo + k) == op_str.spec_bytes()
                && white_len_at(t.subrange(0, end), lo + k) == 0 && t[lo + k] != 47u8
                && white_len_before(t, lo) > 0 && lw is Some && !ext;
            &&& !ok ==> r is None
            &&& ok ==> r is Some && {
                let d = r->0;
                let l = lw->0;
                &&& d.lint == Lint::PossibleMissingComma
                &&& d.message@ == "the is formatted like a unary operator, but it's parsed as a binary operator"@
                &&& d.span == Span::spec_new(op.lo, op.hi, op.ctxt, op.parent)
                &&& d.note is None
                &&& d.suggestions@.len() == 2
                &&& d.suggestions@[0].span.spec_data() == (SpanData {
                    lo: Span::spec_new(l.lo, l.hi, l.ctxt, l.parent).spec_data().hi,
                    ..Span::spec_new(l.lo, l.hi, l.ctxt, l.parent).spec_data()
                })
                &&& d.suggestions@[0].replacement@ == ","@
                &&& d.suggestions@[0].applicability == Applicability::MaybeIncorrect
                &&& d.suggestions@[1].span == Span::spec_new(op.hi, op.hi, op.ctxt, op.parent)
                &&& d.suggestions@[1].replacement@ == " "@
                &&& d.suggestions@[1].applicability == Applicability::MaybeIncorrect
            }
        }),
{
    if e.ctxt != ctxt || !unary_like_exec(op_str) || op.ctxt != e.ctxt {
        return None;
    }
    let mut cursor = match SourceFileRange::new(sm, op.lo..op.hi) {
        Some(c) => c,
        None => return None,
    };
    let cr = match cursor.set_end_if_after(e.hi) {
        Some(c) => c,
        None => return None,
    };
    let t = cr.file_text().as_bytes();
    let lo = cr.range().start.0 as usize;
    let end = cr.range().end.0 as usize;
    let ob = op_str.as_bytes();
    if ob.len() >= end - lo || !bytes_match(t, lo, ob) {
        return None;
    }
    let k = ob.len();
    let w = white_len_at_exec(t, lo + k);
    let fits = w != 0 && w <= end - (lo + k);
    assert(white_len_at(t@.subrange(0, end as int), lo + k) == if fits { w as int } else { 0int });
    if fits || t[lo + k] == 47u8 || white_len_before_exec(t, lo) == 0 {
        return None;
    }
    let lhs_sp = match walk_span_to_context(h, lhs, ctxt) {
        Some(l) => l,
        None => return None,
    };
    if h.in_external_macro(ctxt) {
        return None;
    }
    let comma = Suggestion {
        span: lhs_sp.shrink_to_hi(),
        message: String::from_str("add a comma before"),
        replacement: String::from_str(","),
        applicability: Applicability::MaybeIncorrect,
    };
    let space = Suggestion {
        span: Span::new(op.hi, op.hi, op.ctxt, op.parent),
        message: String::from_str("add a space after"),
        replacement: String::from_str(" "),
        applicability: Applicability::MaybeIncorrect,
    };
    Some(Diagnostic {
        lint: Lint::PossibleMissingComma,
        span: op.span(),
        message: String::from_str(
            "the is formatted like a unary operator, but it's parsed as a binary operator",
        ),
        suggestions: vec![comma, space],
        note: None,
    })
}

} // verus!
