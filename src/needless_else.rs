use vstd::prelude::*;

use vstd::string::StringSliceAdditionalSpecFns;

use crate::diagnostic::{Applicability, Diagnostic, Lint, Suggestion};
use crate::file_range::{bytes_match, range_in, rel_in, SourceFileRange};
use crate::source_map::SourceMap;
use crate::span::{BytePos, Span};
use crate::text::{on_boundary, skip_white, white_end};

verus! {

/// Where the empty `else` branch starts in `t[..hi]`, when the text from `lo` to `hi` is
/// whitespace, `else`, whitespace, `{`, whitespace and `}`, and nothing else.
pub open spec fn empty_else_start(t: Seq<u8>, lo: int, hi: int) -> Option<int> {
    let p1 = white_end(t.subrange(0, hi), lo);
    let p2 = white_end(t.subrange(0, hi), p1 + 4);
    if p1 + 4 <= hi && t.subrange(p1, p1 + 4) == seq![101u8, 108u8, 115u8, 101u8] && p2 < hi
        && t[p2] == 123u8 && p2 + 1 <= hi - 1 && t[hi - 1] == 125u8 && white_end(
        t.subrange(0, hi - 1),
        p2 + 1,
    ) == hi - 1 {
        Some(p1)
    } else {
        None
    }
}

/// Checks an `if` whose `else` branch is an empty block (the caller has found that `else_`
/// is a block without statements). The finding covers `else {}` and offers to remove it; it is
/// only reported when nothing between the `then` block and the end of the `else` block but
/// whitespace, `else` and the braces (no comment, attribute or macro) would be removed, and no
/// span comes from a macro expansion.
pub fn check_needless_else(sm: &SourceMap, expr: Span, then: Span, else_: Span) -> (r: Option<
    Diagnostic,
>)
    requires
        sm.wf(),
    ensures
        ({
            let ed = else_.spec_data();
            let c = range_in(sm@, ed.lo.0, ed.hi.0);
            let (f, lo, hi) = c->0;
            let t = f.spec_src()->0;
            let s = f.spec_start().0 as int;
            let p = rel_in(f.spec_start().0, t, then.spec_data().hi.0);
            let start = empty_else_start(t, p->0, hi);
            let ok = expr.spec_data().ctxt.0 == 0 && then.spec_data().ctxt.0 == 0 && ed.ctxt.0 == 0
                && c is Some && p is Some && on_boundary(t, p->0) && p->0 <= lo && start is Some;
            &&& !ok ==> r is None
            &&& ok ==> r is Some && {
                let d = r->0;
                let sp = Span::spec_new(BytePos((s + start->0) as u32), BytePos((s + hi) as u32), ed.ctxt, ed.parent);
                &&& d.lint == Lint::NeedlessElse
                &&& d.message@ == "this `else` branch is empty"@
                &&& d.span == sp
                &&& d.suggestions@.len() == 1
                &&& d.suggestions@[0].span == sp
                &&& d.suggestions@[0].replacement@.len() == 0
                &&& d.suggestions@[0].applicability == Applicability::MachineApplicable
            }
        }),
{
    if expr.from_expansion() || then.from_expansion() || else_.from_expansion() {
        return None;
    }
    let ed = else_.data();
    let mut cursor = match SourceFileRange::new(sm, ed.lo..ed.hi) {
        Some(c) => c,
        None => return None,
    };
    let cr = match cursor.set_start_if_before(then.hi()) {
        Some(c) => c,
        None => return None,
    };
    let t = cr.file_text().as_bytes();
    let lo = cr.range().start.0 as usize;
    let hi = cr.range().end.0 as usize;
    let p1 = skip_white(t, lo, hi);
    proof {
        crate::text::lemma_str_valid(cr.spec_str());
        crate::text::lemma_prefix_white_end_boundary(t@, lo as int, hi as int);
    }
    let else_kw: [u8; 4] = [101u8, 108u8, 115u8, 101u8];
    let kw = else_kw.as_slice();
    if hi - p1 < 4 || !bytes_match(t, p1, kw) {
        return None;
    }
    assert(kw@ == seq![101u8, 108u8, 115u8, 101u8]);
    let p2 = skip_white(t, p1 + 4, hi);
    if p2 >= hi || t[p2] != 123u8 || hi - 1 < p2 + 1 || t[hi - 1] != 125u8 {
        return None;
    }
    if skip_white(t, p2 + 1, hi - 1) != hi - 1 {
        return None;
    }
    let cr = match cr.set_start_if_within(BytePos(cr.source_range().start.0 + (p1 - lo) as u32)) {
        Some(c) => c,
        None => return None,
    };
    let range = cr.source_range();
    let sp = Span::new(range.start, range.end, ed.ctxt, ed.parent);
    proof {
        reveal_strlit("");
    }
    Some(Diagnostic {
        lint: Lint::NeedlessElse,
        span: sp,
        message: String::from_str("this `else` branch is empty"),
        suggestions: vec![
            Suggestion {
                span: sp,
                message: String::from_str("you can remove it"),
                replacement: String::new(),
                applicability: Applicability::MachineApplicable,
            },
        ],
        note: None,
    })
}

} // verus!
