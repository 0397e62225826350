use vstd::prelude::*;

use std::ops::Range;

use vstd::string::StringSliceAdditionalSpecFns;

use crate::file_range::{range_in, SourceFileRange};
use crate::hygiene::{walk_to, HygieneData};
use crate::source_map::{SourceMap, SourceText};
use crate::span::{BytePos, Span, SpanData, SyntaxContext};

verus! {

/// A value that can be treated as a span for retrieving source text.
pub trait SpanLike: Sized {
    /// The canonical (start, end, context) form of this value.
    spec fn spec_span_data(&self) -> SpanData;

    /// The value that `from_span_data` builds.
    spec fn spec_from_data(data: SpanData) -> Self;

    /// The bounds of this value.
    fn into_range(self) -> (r: Range<BytePos>)
        ensures
            r.start == self.spec_span_data().lo,
            r.end == self.spec_span_data().hi,
    ;

    /// The canonical form of this value.
    fn into_span_data(self) -> (r: SpanData)
        ensures
            r == self.spec_span_data(),
    ;

    /// Builds a value of this kind from span data.
    fn from_span_data(data: SpanData) -> (r: Self)
        ensures
            r == Self::spec_from_data(data),
    ;

    /// Walks this value up the macro call chain to context `ctxt`. Returns `None` if the walk
    /// never reaches that context.
    fn walk_to_ctxt(self, h: &HygieneData, ctxt: SyntaxContext) -> (r: Option<Range<BytePos>>)
        ensures
            match walk_to(h@, self.spec_span_data(), ctxt) {
                Some(d) => r is Some && r->0.start == d.lo && r->0.end == d.hi,
                None => r is None,
            },
    ;
}

impl SpanLike for Span {
    open spec fn spec_span_data(&self) -> SpanData {
        self.spec_data()
    }

    open spec fn spec_from_data(data: SpanData) -> Span {
        Span::spec_new(data.lo, data.hi, data.ctxt, data.parent)
    }

    fn into_range(self) -> (r: Range<BytePos>) {
        let data = self.data();
        data.lo..data.hi
    }

    fn into_span_data(self) -> (r: SpanData) {
        self.data()
    }

    fn from_span_data(data: SpanData) -> (r: Span) {
        Span::new(data.lo, data.hi, data.ctxt, data.parent)
    }

    fn walk_to_ctxt(self, h: &HygieneData, ctxt: SyntaxContext) -> (r: Option<Range<BytePos>>) {
        let other = h.walk_chain(self.data(), ctxt);
        if other.ctxt == ctxt {
            Some(other.lo..other.hi)
        } else {
            None
        }
    }
}

impl SpanLike for SpanData {
    open spec fn spec_span_data(&self) -> SpanData {
        *self
    }

    open spec fn spec_from_data(data: SpanData) -> SpanData {
        data
    }

    fn into_range(self) -> (r: Range<BytePos>) {
        self.lo..self.hi
    }

    fn into_span_data(self) -> (r: SpanData) {
        self
    }

    fn from_span_data(data: SpanData) -> (r: SpanData) {
        data
    }

    fn walk_to_ctxt(self, h: &HygieneData, ctxt: SyntaxContext) -> (r: Option<Range<BytePos>>) {
        let other = h.walk_chain(self, ctxt);
        if other.ctxt == ctxt {
            Some(other.lo..other.hi)
        } else {
            None
        }
    }
}

impl SpanLike for Range<BytePos> {
    open spec fn spec_span_data(&self) -> SpanData {
        SpanData { lo: self.start, hi: self.end, ctxt: SyntaxContext(0), parent: None }
    }

    open spec fn spec_from_data(data: SpanData) -> Range<BytePos> {
        Range { start: data.lo, end: data.hi }
    }

    fn into_range(self) -> (r: Range<BytePos>) {
        self
    }

    fn into_span_data(self) -> (r: SpanData) {
        SpanData { lo: self.start, hi: self.end, ctxt: SyntaxContext(0), parent: None }
    }

    fn from_span_data(data: SpanData) -> (r: Range<BytePos>) {
        data.lo..data.hi
    }

    fn walk_to_ctxt(self, h: &HygieneData, ctxt: SyntaxContext) -> (r: Option<Range<BytePos>>) {
        if ctxt.is_root() {
            Some(self)
        } else {
            None
        }
    }
}

/// Access to the source text of a span-like value.
pub trait SpanExt: SpanLike {
    /// A cursor over the text of this value. Returns `None` when the text is not available or
    /// the value is not a well-formed range of one file.
    fn get_source_range<'sm>(self, sm: &'sm SourceMap) -> (r: Option<SourceFileRange<'sm>>)
        requires
            sm.wf(),
        ensures
            match range_in(sm@, self.spec_span_data().lo.0, self.spec_span_data().hi.0) {
                Some((f, lo, hi)) => r is Some && r->0.wf() && r->0.spec_file() == f && r->0.spec_lo() == lo
                    && r->0.spec_hi() == hi,
                None => r is None,
            },
    {
        SourceFileRange::new(sm, self.into_range())
    }

    /// A handle to the text of this value, or `None` when it is not available.
    fn get_source_text<'sm>(self, sm: &'sm SourceMap) -> (r: Option<SourceText<'sm>>)
        requires
            sm.wf(),
        ensures
            match range_in(sm@, self.spec_span_data().lo.0, self.spec_span_data().hi.0) {
                Some((f, lo, hi)) => r is Some && r->0.spec_bytes() == f.spec_src()->0.subrange(lo, hi),
                None => r is None,
            },
    {
        match SourceFileRange::new(sm, self.into_range()) {
            Some(c) => c.into_text(),
            None => None,
        }
    }

    /// A handle to the text of this value after walking it up to context `ctxt`; `None` when
    /// the walk fails or the text is not available.
    fn get_source_text_at_ctxt<'sm>(self, sm: &'sm SourceMap, h: &HygieneData, ctxt: SyntaxContext) -> (r:
        Option<SourceText<'sm>>)
        requires
            sm.wf(),
        ensures
            match walk_to(h@, self.spec_span_data(), ctxt) {
                Some(d) => match range_in(sm@, d.lo.0, d.hi.0) {
                    Some((f, lo, hi)) => r is Some && r->0.spec_bytes() == f.spec_src()->0.subrange(lo, hi),
                    None => r is None,
                },
                None => r is None,
            },
    {
        match self.walk_to_ctxt(h, ctxt) {
            Some(range) => match SourceFileRange::new(sm, range) {
                Some(c) => c.into_text(),
                None => None,
            },
            None => None,
        }
    }

    /// Whether the text of this value is available and satisfies `pred`.
    fn check_source_text<F: FnOnce(&str) -> bool>(self, sm: &SourceMap, pred: F) -> (r: bool)
        requires
            sm.wf(),
            forall|s: &str| #[trigger] pred.requires((s,)),
        ensures
            range_in(sm@, self.spec_span_data().lo.0, self.spec_span_data().hi.0) is None ==> !r,
            match range_in(sm@, self.spec_span_data().lo.0, self.spec_span_data().hi.0) {
                Some((f, lo, hi)) => exists|s: &str|
                    s.spec_bytes() == f.spec_src()->0.subrange(lo, hi) && #[trigger] pred.ensures((s,), r),
                None => !r,
            },
    {
        match SourceFileRange::new(sm, self.into_range()) {
            Some(c) => {
                let text = c.current_text().unwrap();
                pred(text)
            },
            None => false,
        }
    }

    /// Maps the range of this value with `f`, which gets a cursor over its text: gives the value with the
    /// cursor's final bounds, keeping its context and parent; `None` when the text is not available
    /// or `f` gives `None`.
    fn map_range<'sm, F>(self, sm: &'sm SourceMap, f: F) -> (r: Option<Self>)
        where
            F: for<'a> FnOnce(&'a mut SourceFileRange<'sm>) -> Option<&'a mut SourceFileRange<'sm>>,
        requires
            sm.wf(),
            forall|c: &mut SourceFileRange<'sm>| #[trigger] f.requires((c,)),
            forall|c: &mut SourceFileRange<'sm>, out: Option<&mut SourceFileRange<'sm>>|
                #[trigger] f.ensures((c,), out) ==> (out matches Some(x) ==> (*x).wf()),
        ensures
            range_in(sm@, self.spec_span_data().lo.0, self.spec_span_data().hi.0) is None ==> r is None,
            ({
                let d = self.spec_span_data();
                let ri = range_in(sm@, d.lo.0, d.hi.0);
                let (file, lo, hi) = ri->0;
                ri is Some ==> exists|c: &mut SourceFileRange<'sm>, out: Option<&mut SourceFileRange<'sm>>|
                    #[trigger] f.ensures((c,), out) && (*c).wf() && (*c).spec_file() == file && (*c).spec_lo() == lo
                        && (*c).spec_hi() == hi && match out {
                        Some(x) => r == Some(Self::spec_from_data(SpanData {
                            lo: BytePos(((*x).spec_file().spec_start().0 + (*x).spec_lo()) as u32),
                            hi: BytePos(((*x).spec_file().spec_start().0 + (*x).spec_hi()) as u32),
                            ..d
                        })),
                        None => r is None,
                    }
            }),
            (range_in(sm@, self.spec_span_data().lo.0, self.spec_span_data().hi.0) is Some && forall|c: &mut SourceFileRange<'sm>, out: Option<&mut SourceFileRange<'sm>>|
                #[trigger] f.ensures((c,), out) ==> out is Some) ==> r is Some,
            (forall|c: &mut SourceFileRange<'sm>, out: Option<&mut SourceFileRange<'sm>>|
                #[trigger] f.ensures((c,), out) ==> out is None) ==> r is None,
    {
        let data = self.into_span_data();
        let mut cursor = match SourceFileRange::new(sm, data.lo..data.hi) {
            Some(c) => c,
            None => return None,
        };
        match f(&mut cursor) {
            Some(c) => {
                let range = c.source_range();
                Some(Self::from_span_data(SpanData { lo: range.start, hi: range.end, ..data }))
            },
            None => None,
        }
    }
}

impl<T: SpanLike> SpanExt for T {
}

/// Projecting a span to its data and building a span back gives the same span; building from
/// ordered data and projecting gives the same data.
pub proof fn lemma_span_round_trip(s: Span, d: SpanData)
    requires
        s.ordered(),
        d.lo.0 <= d.hi.0,
    ensures
        <Span as SpanLike>::spec_from_data(s.spec_span_data()) == s,
        <Span as SpanLike>::spec_from_data(d).spec_span_data() == d,
{
    Span::lemma_from_data(s.spec_data(), s);
    Span::lemma_from_data(d, s);
}

/// Span data round-trips through `from_span_data` and `into_span_data` unchanged.
pub proof fn lemma_span_data_round_trip(d: SpanData)
    ensures
        <SpanData as SpanLike>::spec_from_data(d.spec_span_data()) == d,
        <SpanData as SpanLike>::spec_from_data(d).spec_span_data() == d,
{
}

/// A range round-trips through `into_span_data` and `from_span_data` unchanged.
pub proof fn lemma_range_round_trip(r: Range<BytePos>)
    ensures
        <Range<BytePos> as SpanLike>::spec_from_data(r.spec_span_data()) == r,
{
}

/// Walking a value whose context is already the target gives back its own bounds.
pub proof fn lemma_walk_to_own_context(h: &HygieneData, s: SpanData)
    ensures
        walk_to(h@, s, s.ctxt) == Some(s),
{
}

} // verus!
