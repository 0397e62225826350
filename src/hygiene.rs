use vstd::prelude::*;

use crate::span::{BytePos, Span, SpanData, SyntaxContext};

verus! {

/// What is known of one macro expansion: where the macro was called, and whether the macro is
/// defined outside the code under analysis.
#[derive(Clone, Copy, Debug, PartialEq, Eq, Structural)]
pub struct ExpnData {
    pub call_site: SpanData,
    pub external: bool,
}

/// The tree of syntax contexts. Entry `c` describes context `c`; entry `0` stands for the root
/// and is never followed.
pub struct HygieneData {
    expns: Vec<ExpnData>,
}

/// Follows call sites from `s` until it reaches context `to` or a span written by the user. A
/// context that is unknown, or whose call site is not older than itself, ends the walk.
pub open spec fn walk_chain(expns: Seq<ExpnData>, s: SpanData, to: SyntaxContext) -> SpanData
    decreases s.ctxt.0,
{
    if s.ctxt == to || s.ctxt.0 == 0 || s.ctxt.0 >= expns.len() {
        s
    } else {
        let next = expns[s.ctxt.0 as int].call_site;
        if next.ctxt.0 < s.ctxt.0 {
            walk_chain(expns, next, to)
        } else {
            s
        }
    }
}

/// Where `s` stands at context `to`, if its ancestry passes through `to`.
pub open spec fn walk_to(expns: Seq<ExpnData>, s: SpanData, to: SyntaxContext) -> Option<SpanData> {
    let w = walk_chain(expns, s, to);
    if w.ctxt == to {
        Some(w)
    } else {
        None
    }
}

impl HygieneData {
    /// The entries of the table.
    pub closed spec fn view(&self) -> Seq<ExpnData> {
        self.expns@
    }

    /// Each expansion was called from an older context, so the tree has no cycle.
    pub open spec fn wf(&self) -> bool {
        &&& self@.len() >= 1
        &&& forall|c: int| 1 <= c < self@.len() ==> (#[trigger] self@[c]).call_site.ctxt.0 < c
    }

    /// A table that knows only the root context.
    pub fn new() -> (r: HygieneData)
        ensures
            r.wf(),
            r@.len() == 1,
    {
        let root = ExpnData {
            call_site: SpanData {
                lo: BytePos(0),
                hi: BytePos(0),
                ctxt: SyntaxContext(0),
                parent: None,
            },
            external: false,
        };
        HygieneData { expns: vec![root] }
    }

    /// Records a new expansion called at `call_site` and returns its context. Returns `None` when
    /// the call site's context is not known yet or no identifier is left.
    pub fn add_expansion(&mut self, call_site: SpanData, external: bool) -> (r: Option<
        SyntaxContext,
    >)
        requires
            old(self).wf(),
        ensures
            final(self).wf(),
            (call_site.ctxt.0 < old(self)@.len() && old(self)@.len() < u32::MAX) ==> r == Some(
                SyntaxContext(old(self)@.len() as u32),
            ) && final(self)@ == old(self)@.push(ExpnData { call_site, external }),
            !(call_site.ctxt.0 < old(self)@.len() && old(self)@.len() < u32::MAX) ==> r is None
                && final(self)@ == old(self)@,
    {
        let n = self.expns.len();
        if (call_site.ctxt.0 as usize) < n && n < u32::MAX as usize {
            self.expns.push(ExpnData { call_site, external });
            Some(SyntaxContext(n as u32))
        } else {
            None
        }
    }

    /// The number of known contexts, the root included.
    pub fn len(&self) -> (r: usize)
        ensures
            r == self@.len(),
    {
        self.expns.len()
    }

    /// Whether `ctxt` comes from a macro defined outside the code under analysis; the root and
    /// unknown contexts are not.
    pub fn in_external_macro(&self, ctxt: SyntaxContext) -> (r: bool)
        ensures
            r == (ctxt.0 != 0 && ctxt.0 < self@.len() && self@[ctxt.0 as int].external),
    {
        ctxt.0 != 0 && (ctxt.0 as usize) < self.expns.len() && self.expns[ctxt.0 as usize].external
    }

    /// Walks `span` up the macro call chain until it reaches context `to` or user-written code.
    pub fn walk_chain(&self, span: SpanData, to: SyntaxContext) -> (r: SpanData)
        ensures
            r == walk_chain(self@, span, to),
    {
        let mut s = span;
        loop
            invariant
                walk_chain(self@, s, to) == walk_chain(self@, span, to),
            decreases s.ctxt.0,
        {
            if s.ctxt == to || s.ctxt.0 == 0 || s.ctxt.0 as usize >= self.expns.len() {
                return s;
            }
            let next = self.expns[s.ctxt.0 as usize].call_site;
            if next.ctxt.0 < s.ctxt.0 {
                s = next;
            } else {
                return s;
            }
        }
    }
}

/// Walks the span up to the target context, giving the macro call site where the span lies in
/// an expansion, or the span itself where it is already at that context. Returns `None` where
/// the walk never passes through `outer` (a span from a macro argument, for example).
pub fn walk_span_to_context(h: &HygieneData, span: Span, outer: SyntaxContext) -> (r: Option<Span>)
    ensures
        match walk_to(h@, span.spec_data(), outer) {
            Some(d) => r == Some(Span::spec_new(d.lo, d.hi, d.ctxt, d.parent)),
            None => r is None,
        },
{
    let outer_span = h.walk_chain(span.data(), outer);
    if outer_span.ctxt == outer {
        Some(outer_span.span())
    } else {
        None
    }
}

} // verus!
