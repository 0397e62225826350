use vstd::prelude::*;

use vstd::string::StringSliceAdditionalSpecFns;
use vstd::utf8::encode_utf8;

use crate::diagnostic::{for_expansion_spec, snippet_applicability, Applicability};
use crate::file_range::{range_in, SourceFileRange};
use crate::hygiene::{walk_chain, walk_span_to_context, walk_to, HygieneData};
use crate::reindent::{reindent, reindent_multiline};
use crate::source_map::{file_index, SourceMap};
use crate::span::{BytePos, RelativeBytePos, Span, SpanData, SyntaxContext};
use crate::text::{skip_white, skip_white_back, str_get, white_end, white_start};

verus! {

/// The text of `lo..hi`, when one loaded file holds it and it is a well-formed range there.
pub open spec fn snippet_of(sm: Seq<crate::source_map::SourceFile>, lo: u32, hi: u32) -> Option<Seq<u8>> {
    match range_in(sm, lo, hi) {
        Some((f, a, b)) => Some(f.spec_src()->0.subrange(a, b)),
        None => None,
    }
}

/// The source text of `span`, or `None` when it is not available.
pub fn snippet_opt(sm: &SourceMap, span: Span) -> (r: Option<String>)
    requires
        sm.wf(),
    ensures
        match snippet_of(sm@, span.spec_data().lo.0, span.spec_data().hi.0) {
            Some(b) => r is Some && encode_utf8(r->0@) == b,
            None => r is None,
        },
{
    let d = span.data();
    match SourceFileRange::new(sm, d.lo..d.hi) {
        Some(c) => {
            let t = c.as_text().unwrap();
            Some(t.to_owned())
        },
        None => None,
    }
}

/// The source text of `span`, or `default` when it is not available.
pub fn snippet(sm: &SourceMap, span: Span, default: &str) -> (r: String)
    requires
        sm.wf(),
    ensures
        match snippet_of(sm@, span.spec_data().lo.0, span.spec_data().hi.0) {
            Some(b) => encode_utf8(r@) == b,
            None => r@ == default@,
        },
{
    match snippet_opt(sm, span) {
        Some(s) => s,
        None => String::from_str(default),
    }
}

/// Like `snippet`, and adjusts the confidence of the suggestion that uses it: text from a macro
/// expansion makes it `MaybeIncorrect` (an `Unspecified` one stays), and falling back to
/// `default` turns `MachineApplicable` into `HasPlaceholders`.
pub fn snippet_with_applicability(
    sm: &SourceMap,
    span: Span,
    default: &str,
    applicability: &mut Applicability,
) -> (r: String)
    requires
        sm.wf(),
    ensures
        ({
            let s = snippet_of(sm@, span.spec_data().lo.0, span.spec_data().hi.0);
            &&& *final(applicability) == (if s is None && for_expansion_spec(*old(applicability), span.spec_data().ctxt.0 != 0) == Applicability::MachineApplicable {
                Applicability::HasPlaceholders
            } else {
                for_expansion_spec(*old(applicability), span.spec_data().ctxt.0 != 0)
            })
            &&& match s {
                Some(b) => encode_utf8(r@) == b,
                None => r@ == default@,
            }
        }),
{
    let snip = snippet_opt(sm, span);
    *applicability = snippet_applicability(*applicability, span.from_expansion(), snip.is_some());
    match snip {
        Some(s) => s,
        None => String::from_str(default),
    }
}

/// Like `snippet_with_applicability`, but first walks `span` up to context `outer`, so that a
/// span inside a macro expansion gives the text of the macro call. Where the walk fails (the
/// span comes from a macro argument) the span is used as it is and the confidence drops to
/// `MaybeIncorrect` (an `Unspecified` one stays). Also tells whether the text is a macro call.
pub fn snippet_with_context(
    sm: &SourceMap,
    h: &HygieneData,
    span: Span,
    outer: SyntaxContext,
    default: &str,
    applicability: &mut Applicability,
) -> (r: (String, bool))
    requires
        sm.wf(),
    ensures
        ({
            let w = walk_to(h@, span.spec_data(), outer);
            let used = match w {
                Some(d) => Span::spec_new(d.lo, d.hi, d.ctxt, d.parent),
                None => span,
            };
            let a1 = if w is None && *old(applicability) != Applicability::Unspecified {
                Applicability::MaybeIncorrect
            } else {
                *old(applicability)
            };
            let s = snippet_of(sm@, used.spec_data().lo.0, used.spec_data().hi.0);
            &&& r.1 == (w is Some && span.spec_data().ctxt != outer)
            &&& *final(applicability) == (if s is None && for_expansion_spec(a1, used.spec_data().ctxt.0 != 0) == Applicability::MachineApplicable {
                Applicability::HasPlaceholders
            } else {
                for_expansion_spec(a1, used.spec_data().ctxt.0 != 0)
            })
            &&& match s {
                Some(b) => encode_utf8(r.0@) == b,
                None => r.0@ == default@,
            }
        }),
{
    let (used, is_macro_call) = match walk_span_to_context(h, span, outer) {
        Some(o) => (o, span.ctxt() != outer),
        None => {
            if *applicability != Applicability::Unspecified {
                *applicability = Applicability::MaybeIncorrect;
            }
            (span, false)
        },
    };
    (snippet_with_applicability(sm, used, default, applicability), is_macro_call)
}

/// Trims the whitespace from both ends of `span`. The span is kept as it is when its text is
/// not available.
pub fn trim_span(sm: &SourceMap, span: Span) -> (r: Span)
    requires
        sm.wf(),
    ensures
        ({
            let d = span.spec_data();
            match snippet_of(sm@, d.lo.0, d.hi.0) {
                Some(b) => {
                    let front = white_end(b, 0);
                    let back = b.len() - white_start(b, b.len() as int);
                    r == Span::spec_new(BytePos((d.lo.0 + front) as u32), BytePos((d.hi.0 - back) as u32), d.ctxt, d.parent)
                },
                None => r == span,
            }
        }),
{
    let d = span.data();
    let c = match SourceFileRange::new(sm, d.lo..d.hi) {
        Some(c) => c,
        None => return span,
    };
    let snip = c.current_text().unwrap();
    let b = snip.as_bytes();
    let front = skip_white(b, 0, b.len());
    let start_back = skip_white_back(b, b.len());
    let back = b.len() - start_back;
    assert(b@.subrange(0, b@.len() as int) == b@);
    SpanData {
        lo: BytePos(d.lo.0 + front as u32),
        hi: BytePos(d.hi.0 - back as u32),
        ctxt: d.ctxt,
        parent: d.parent,
    }.span()
}

/// Whether the text of `span` is present in the source: an available but empty snippet (an
/// attribute that macro expansion inserted, for instance) is not.
pub fn is_present_in_source(sm: &SourceMap, span: Span) -> (r: bool)
    requires
        sm.wf(),
    ensures
        r == !(snippet_of(sm@, span.spec_data().lo.0, span.spec_data().hi.0) is Some
            && snippet_of(sm@, span.spec_data().lo.0, span.spec_data().hi.0)->0.len() == 0),
{
    match snippet_opt(sm, span) {
        Some(s) => {
            proof {
                assert(s@.len() == 0 <==> encode_utf8(s@).len() == 0) by {
                    if s@.len() > 0 {
                        vstd::utf8::encode_utf8_first_scalar(s@);
                    }
                }
            }
            !s.as_str().is_empty()
        },
        None => true,
    }
}


/// `span` moved out of every macro expansion, to the code the user wrote.
pub open spec fn outermost(h: Seq<crate::hygiene::ExpnData>, span: Span) -> Span {
    let d = walk_chain(h, span.spec_data(), SyntaxContext(0));
    Span::spec_new(d.lo, d.hi, d.ctxt, d.parent)
}

/// `span`, moved out of macro expansions and extended back to the start of its line; `None`
/// when no file holds it.
pub open spec fn line_span_spec(sm: Seq<crate::source_map::SourceFile>, h: Seq<crate::hygiene::ExpnData>, span: Span) -> Option<Span> {
    let sp = outermost(h, span);
    let d = sp.spec_data();
    match file_index(sm, d.lo.0) {
        Some(i) => {
            let f = sm[i];
            let lines = f.spec_lines();
            let k = crate::file_range::first_line_after(lines, d.lo.0 - f.spec_start().0) - 1;
            let ls = f.spec_start().0 + lines[k];
            Some(Span::spec_new(BytePos(ls as u32), d.hi, d.ctxt, d.parent))
        },
        None => None,
    }
}

/// Extends `span` (moved out of macro expansions) back to the start of its line, whitespace
/// included. Returns `None` when no file holds the span.
pub fn line_span(sm: &SourceMap, h: &HygieneData, span: Span) -> (r: Option<Span>)
    requires
        sm.wf(),
    ensures
        r == line_span_spec(sm@, h@, span),
{
    let d = h.walk_chain(span.data(), SyntaxContext::root());
    let sp = d.span();
    let d = sp.data();
    let idx = match sm.lookup_file_index(d.lo) {
        Some(i) => i,
        None => return None,
    };
    let count = sm.len();
    assert(crate::source_map::holds_pos(sm@, file_index(sm@, d.lo.0)->0, d.lo.0));
    let f = sm.file(idx);
    assert(sm@[idx as int].wf());
    let start = f.start_pos().0;
    let k = f.lookup_line(RelativeBytePos(d.lo.0 - start)).unwrap();
    let _n = f.line_count();
    proof {
        crate::file_range::lemma_partition(f.spec_lines(), (d.lo.0 - start) as int, false, k + 1);
    }
    let ls = f.line_start(k).unwrap().0;
    assert(f.spec_lines()[k as int] <= d.lo.0 - start);
    Some(sp.with_lo(BytePos(start + ls)))
}

/// The text of `span`, or `default` when it is not available, as characters.
pub open spec fn snippet_chars(sm: Seq<crate::source_map::SourceFile>, span: Span, default: Seq<char>) -> Seq<char> {
    match snippet_of(sm, span.spec_data().lo.0, span.spec_data().hi.0) {
        Some(b) => vstd::utf8::decode_utf8(b),
        None => default,
    }
}

/// The width in bytes of the indentation of the line that holds `span`; `None` when the text is
/// not available or the line holds only whitespace.
pub open spec fn indent_of_spec(sm: Seq<crate::source_map::SourceFile>, h: Seq<crate::hygiene::ExpnData>, span: Span) -> Option<int> {
    match line_span_spec(sm, h, span) {
        Some(ls) => match snippet_of(sm, ls.spec_data().lo.0, ls.spec_data().hi.0) {
            Some(b) => if white_end(b, 0) < b.len() {
                Some(white_end(b, 0))
            } else {
                None
            },
            None => None,
        },
        None => None,
    }
}

/// The indentation of the line of `span`, in bytes: where its first non-whitespace character
/// stands.
pub fn indent_of(sm: &SourceMap, h: &HygieneData, span: Span) -> (r: Option<usize>)
    requires
        sm.wf(),
    ensures
        match indent_of_spec(sm@, h@, span) {
            Some(n) => r == Some(n as usize),
            None => r is None,
        },
{
    let ls = match line_span(sm, h, span) {
        Some(l) => l,
        None => return None,
    };
    let snip = match snippet_opt(sm, ls) {
        Some(s) => s,
        None => return None,
    };
    let b = snip.as_str().as_bytes();
    let we = skip_white(b, 0, b.len());
    assert(b@.subrange(0, b@.len() as int) == b@);
    if we < b.len() {
        Some(we)
    } else {
        None
    }
}

/// The indentation of the line of `span`, as text: the whitespace at the start of its line.
pub fn snippet_indent(sm: &SourceMap, h: &HygieneData, span: Span) -> (r: Option<String>)
    requires
        sm.wf(),
    ensures
        match line_span_spec(sm@, h@, span) {
            Some(ls) => match snippet_of(sm@, ls.spec_data().lo.0, ls.spec_data().hi.0) {
                Some(b) => r is Some && encode_utf8(r->0@) == b.subrange(0, white_end(b, 0)),
                None => r is None,
            },
            None => r is None,
        },
{
    let ls = match line_span(sm, h, span) {
        Some(l) => l,
        None => return None,
    };
    let snip = match snippet_opt(sm, ls) {
        Some(s) => s,
        None => return None,
    };
    let text = snip.as_str();
    let b = text.as_bytes();
    let we = skip_white(b, 0, b.len());
    assert(b@.subrange(0, b@.len() as int) == b@);
    proof {
        crate::text::lemma_str_valid(text);
        crate::text::lemma_white_end_boundary(b@, 0);
    }
    match str_get(text, 0, we) {
        Some(p) => Some(p.to_owned()),
        None => None,
    }
}


/// `span` extended back to the first non-whitespace character of its line; `span` itself when
/// its line cannot be read or holds only whitespace.
pub fn first_line_of_span(sm: &SourceMap, h: &HygieneData, span: Span) -> (r: Span)
    requires
        sm.wf(),
    ensures
        match line_span_spec(sm@, h@, span) {
            Some(ls) => match snippet_of(sm@, ls.spec_data().lo.0, ls.spec_data().hi.0) {
                Some(b) => if white_end(b, 0) < b.len() {
                    r == Span::spec_new(
                        BytePos((ls.spec_data().lo.0 + white_end(b, 0)) as u32),
                        span.spec_data().hi,
                        span.spec_data().ctxt,
                        span.spec_data().parent,
                    )
                } else {
                    r == span
                },
                None => r == span,
            },
            None => r == span,
        },
{
    let ls = match line_span(sm, h, span) {
        Some(l) => l,
        None => return span,
    };
    let snip = match snippet_opt(sm, ls) {
        Some(s) => s,
        None => return span,
    };
    let b = snip.as_str().as_bytes();
    let we = skip_white(b, 0, b.len());
    assert(b@.subrange(0, b@.len() as int) == b@);
    if we < b.len() {
        proof {
            crate::file_range::lemma_range_in_len(sm@, ls.spec_data().lo.0, ls.spec_data().hi.0);
        }
        span.with_lo(BytePos(ls.lo().0 + we as u32))
    } else {
        span
    }
}

/// The text of `span` (or `default`) as a block: reindented, except its first line, so that its
/// indentation follows that of the line of `indent_relative_to`, or is removed.
pub fn snippet_block(
    sm: &SourceMap,
    h: &HygieneData,
    span: Span,
    default: &str,
    indent_relative_to: Option<Span>,
) -> (r: String)
    requires
        sm.wf(),
    ensures
        r@ == reindent(
            snippet_chars(sm@, span, default@),
            true,
            match indent_relative_to {
                Some(s) => match indent_of_spec(sm@, h@, s) {
                    Some(n) => Some(n as usize),
                    None => None,
                },
                None => None,
            },
        ),
{
    let snip = snippet(sm, span, default);
    proof {
        vstd::utf8::encode_utf8_decode_utf8(snip@);
    }
    let indent = match indent_relative_to {
        Some(s) => indent_of(sm, h, s),
        None => None,
    };
    reindent_multiline(snip.as_str(), true, indent)
}

/// Like `snippet_block`, and adjusts the confidence as `snippet_with_applicability` does.
pub fn snippet_block_with_applicability(
    sm: &SourceMap,
    h: &HygieneData,
    span: Span,
    default: &str,
    indent_relative_to: Option<Span>,
    applicability: &mut Applicability,
) -> (r: String)
    requires
        sm.wf(),
    ensures
        r@ == reindent(
            snippet_chars(sm@, span, default@),
            true,
            match indent_relative_to {
                Some(s) => match indent_of_spec(sm@, h@, s) {
                    Some(n) => Some(n as usize),
                    None => None,
                },
                None => None,
            },
        ),
        *final(applicability) == (if snippet_of(sm@, span.spec_data().lo.0, span.spec_data().hi.0) is None
            && for_expansion_spec(*old(applicability), span.spec_data().ctxt.0 != 0) == Applicability::MachineApplicable {
            Applicability::HasPlaceholders
        } else {
            for_expansion_spec(*old(applicability), span.spec_data().ctxt.0 != 0)
        }),
{
    let snip = snippet_with_applicability(sm, span, default, applicability);
    proof {
        vstd::utf8::encode_utf8_decode_utf8(snip@);
    }
    let indent = match indent_relative_to {
        Some(s) => indent_of(sm, h, s),
        None => None,
    };
    reindent_multiline(snip.as_str(), true, indent)
}

/// Like `snippet_block`, but takes the text as `snippet_with_context` does; also tells whether
/// the text is a macro call.
pub fn snippet_block_with_context(
    sm: &SourceMap,
    h: &HygieneData,
    span: Span,
    outer: SyntaxContext,
    default: &str,
    indent_relative_to: Option<Span>,
    applicability: &mut Applicability,
) -> (r: (String, bool))
    requires
        sm.wf(),
    ensures
        ({
            let w = walk_to(h@, span.spec_data(), outer);
            let used = match w {
                Some(d) => Span::spec_new(d.lo, d.hi, d.ctxt, d.parent),
                None => span,
            };
            &&& r.1 == (w is Some && span.spec_data().ctxt != outer)
            &&& r.0@ == reindent(
                snippet_chars(sm@, used, default@),
                true,
                match indent_relative_to {
                    Some(s) => match indent_of_spec(sm@, h@, s) {
                        Some(n) => Some(n as usize),
                        None => None,
                    },
                    None => None,
                },
            )
        }),
{
    let (snip, from_macro) = snippet_with_context(sm, h, span, outer, default, applicability);
    proof {
        vstd::utf8::encode_utf8_decode_utf8(snip@);
    }
    let indent = match indent_relative_to {
        Some(s) => indent_of(sm, h, s),
        None => None,
    };
    (reindent_multiline(snip.as_str(), true, indent), from_macro)
}

/// The text of an expression as a block: as `snippet_block_with_context` gives it when the
/// expression is a plain block (`is_plain_block`: a block with no label that is not an
/// `unsafe` block the user wrote) and not a macro call, and wrapped in braces otherwise.
pub fn expr_block(
    sm: &SourceMap,
    h: &HygieneData,
    span: Span,
    is_plain_block: bool,
    outer: SyntaxContext,
    default: &str,
    indent_relative_to: Option<Span>,
    applicability: &mut Applicability,
) -> (r: String)
    requires
        sm.wf(),
    ensures
        ({
            let w = walk_to(h@, span.spec_data(), outer);
            let used = match w {
                Some(d) => Span::spec_new(d.lo, d.hi, d.ctxt, d.parent),
                None => span,
            };
            let from_macro = w is Some && span.spec_data().ctxt != outer;
            let code = reindent(
                snippet_chars(sm@, used, default@),
                true,
                match indent_relative_to {
                    Some(s) => match indent_of_spec(sm@, h@, s) {
                        Some(n) => Some(n as usize),
                        None => None,
                    },
                    None => None,
                },
            );
            r@ == if !from_macro && is_plain_block {
                code
            } else {
                "{ "@ + code + " }"@
            }
        }),
{
    let (code, from_macro) = snippet_block_with_context(
        sm,
        h,
        span,
        outer,
        default,
        indent_relative_to,
        applicability,
    );
    if !from_macro && is_plain_block {
        code
    } else {
        let mut s = String::from_str("{ ");
        s.append(code.as_str());
        s.append(" }");
        s
    }
}


/// The text of a one-character string literal as it goes inside a character literal: a quote
/// and a backslash are escaped, an escaped double quote loses its backslash.
pub open spec fn char_escape(c: Seq<char>) -> Seq<char> {
    if c == seq!['\''] {
        seq!['\\', '\'']
    } else if c == seq!['\\'] {
        seq!['\\', '\\']
    } else if c == seq!['\\', '"'] {
        seq!['"']
    } else {
        c
    }
}

/// The bytes between the quotes of a string literal's source text `b`: after `r`, `n` hashes
/// and a quote for a raw literal (`raw_hashes == Some(n)`), after one quote otherwise.
pub open spec fn literal_body(b: Seq<u8>, raw_hashes: Option<usize>) -> Option<(int, int)> {
    let (a, e) = match raw_hashes {
        Some(n) => (n + 2, b.len() - 1 - n),
        None => (1, b.len() - 1),
    };
    if 0 <= a <= e <= b.len() && crate::text::on_boundary(b, a) && crate::text::on_boundary(b, e) {
        Some((a, e))
    } else {
        None
    }
}

/// Turns a string literal that holds a single character (a single byte with `ascii_only`) into
/// a character literal, written from the literal's source text. `value` is the literal's value
/// and `raw_hashes` the number of hashes of a raw literal. Returns `None` when the value is not
/// one character, or the source text is too short to hold the quotes.
pub fn str_literal_to_char_literal(
    sm: &SourceMap,
    span: Span,
    value: &str,
    raw_hashes: Option<usize>,
    applicability: &mut Applicability,
    ascii_only: bool,
) -> (r: Option<String>)
    requires
        sm.wf(),
    ensures
        ({
            let one = if ascii_only {
                value.spec_bytes().len() == 1
            } else {
                value@.len() == 1
            };
            let s = snippet_of(sm@, span.spec_data().lo.0, span.spec_data().hi.0);
            let b = match s {
                Some(x) => x,
                None => value.spec_bytes(),
            };
            let body = literal_body(b, raw_hashes);
            let (ba, be) = body->0;
            &&& !one ==> r is None && *final(applicability) == *old(applicability)
            &&& one && body is None ==> r is None
            &&& one && body is Some ==> r is Some && r->0@ == seq!['\''] + char_escape(
                vstd::utf8::decode_utf8(b.subrange(ba, be)),
            ) + seq!['\'']
            &&& one ==> *final(applicability) == (if s is None && for_expansion_spec(*old(applicability), span.spec_data().ctxt.0 != 0) == Applicability::MachineApplicable {
                Applicability::HasPlaceholders
            } else {
                for_expansion_spec(*old(applicability), span.spec_data().ctxt.0 != 0)
            })
        }),
{
    let len = if ascii_only {
        value.as_bytes().len()
    } else {
        value.unicode_len()
    };
    if len != 1 {
        return None;
    }
    let snip = snippet_with_applicability(sm, span, value, applicability);
    let text = snip.as_str();
    let n = text.as_bytes().len();
    let (a, e) = match raw_hashes {
        Some(h) => {
            if h > n || n - h < 1 || h > usize::MAX - 2 {
                return None;
            }
            (h + 2, n - 1 - h)
        },
        None => {
            if n < 1 {
                return None;
            }
            (1, n - 1)
        },
    };
    let ch = match str_get(text, a, e) {
        Some(c) => c,
        None => return None,
    };
    proof {
        vstd::utf8::encode_utf8_decode_utf8(ch@);
        reveal_strlit("'");
        reveal_strlit("\\'");
        reveal_strlit("\\\\");
        reveal_strlit("\"");
    }
    let cs = crate::chars::chars_of(ch);
    let piece: &str = if cs.len() == 1 && cs[0] == '\'' {
        assert(cs@ == seq!['\'']);
        "\\'"
    } else if cs.len() == 1 && cs[0] == '\\' {
        assert(cs@ == seq!['\\']);
        "\\\\"
    } else if cs.len() == 2 && cs[0] == '\\' && cs[1] == '"' {
        assert(cs@ == seq!['\\', '"']);
        "\""
    } else {
        ch
    };
    let mut hint = String::from_str("'");
    hint.append(piece);
    hint.append("'");
    Some(hint)
}


/// The length of the text between the last `c` before `lo` and `lo` (the whole text before
/// `lo` when there is no `c`), in the file text `b`.
pub open spec fn after_last(b: Seq<u8>, lo: int, c: u8) -> int
    decreases lo,
{
    if lo <= 0 || lo > b.len() {
        0
    } else if b[lo - 1] == c {
        0
    } else {
        1 + after_last(b, lo - 1, c)
    }
}

/// Extends `span` back over the text that follows the last `,` before it, and over that comma.
/// When the text before the span cannot be read, only the comma step is made; a span at the
/// very start of the address space keeps its start.
pub fn expand_past_previous_comma(sm: &SourceMap, span: Span) -> (r: Span)
    requires
        sm.wf(),
    ensures
        ({
            let d = span.spec_data();
            let ext_lo: int = match file_index(sm@, d.lo.0) {
                Some(i) => {
                    let f = sm@[i];
                    let rel = d.lo.0 - f.spec_start().0;
                    if f.spec_src() is Some && rel <= f.spec_src()->0.len() && crate::text::on_boundary(f.spec_src()->0, rel) {
                        d.lo.0 - after_last(f.spec_src()->0, rel, 44u8)
                    } else {
                        d.lo.0 as int
                    }
                },
                None => d.lo.0 as int,
            };
            let new_lo: int = if ext_lo > 0 { ext_lo - 1 } else { 0 };
            r == Span::spec_new(BytePos(new_lo as u32), d.hi, d.ctxt, d.parent)
        }),
{
    let d = span.data();
    let mut lo = d.lo.0;
    match sm.lookup_file_index(d.lo) {
        Some(i) => {
            let count = sm.len();
            assert(crate::source_map::holds_pos(sm@, file_index(sm@, d.lo.0)->0, d.lo.0));
            let f = sm.file(i);
            let rel = (d.lo.0 - f.start_pos().0) as usize;
            match f.src() {
                Some(text) => {
                    let b = text.as_bytes();
                    if rel <= b.len() && crate::text::is_boundary(text, rel) {
                        let mut k = rel;
                        while k > 0 && b[k - 1] != 44u8
                            invariant
                                k <= rel <= b@.len(),
                                after_last(b@, rel as int, 44u8) == (rel - k) + after_last(b@, k as int, 44u8),
                            decreases k,
                        {
                            k = k - 1;
                        }
                        lo = d.lo.0 - (rel - k) as u32;
                    }
                },
                None => {},
            }
        },
        None => {},
    }
    let new_lo = if lo > 0 { lo - 1 } else { 0 };
    Span::new(BytePos(new_lo), d.hi, d.ctxt, d.parent)
}

} // verus!
