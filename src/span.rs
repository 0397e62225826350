use vstd::prelude::*;

verus! {

/// A byte offset in the combined address space of all loaded files.
#[derive(Clone, Copy, Debug, PartialEq, Eq, Structural)]
pub struct BytePos(pub u32);

/// A byte offset relative to the start of one file.
#[derive(Clone, Copy, Debug, PartialEq, Eq, Structural)]
pub struct RelativeBytePos(pub u32);

/// Identifies the macro expansion that a piece of syntax comes from; `0` is the root context,
/// code written directly by the user.
#[derive(Clone, Copy, Debug, PartialEq, Eq, Structural)]
pub struct SyntaxContext(pub u32);

/// The definition that a span is attached to, kept only for hygiene.
#[derive(Clone, Copy, Debug, PartialEq, Eq, Structural)]
pub struct LocalDefId(pub u32);

impl SyntaxContext {
    /// The context of code written directly by the user.
    pub fn root() -> (r: SyntaxContext)
        ensures
            r.0 == 0,
    {
        SyntaxContext(0)
    }

    /// Whether this is the root context.
    pub fn is_root(self) -> (r: bool)
        ensures
            r == (self.0 == 0),
    {
        self.0 == 0
    }
}

/// The uncompressed form of a span: its bounds, its context and its parent.
#[derive(Clone, Copy, Debug, PartialEq, Eq, Structural)]
pub struct SpanData {
    pub lo: BytePos,
    pub hi: BytePos,
    pub ctxt: SyntaxContext,
    pub parent: Option<LocalDefId>,
}

/// A located range of source text together with its macro-expansion identity.
#[derive(Clone, Copy, Debug, PartialEq, Eq, Structural)]
pub struct Span {
    data: SpanData,
}

impl Span {
    /// The data that this span stands for.
    pub closed spec fn spec_data(self) -> SpanData {
        self.data
    }

    /// A span starts no later than it ends; every constructor keeps this.
    pub open spec fn ordered(self) -> bool {
        self.spec_data().lo.0 <= self.spec_data().hi.0
    }

    /// Makes a span; the bounds are put in order when `hi` lies before `lo`.
    pub fn new(lo: BytePos, hi: BytePos, ctxt: SyntaxContext, parent: Option<LocalDefId>) -> (r:
        Span)
        ensures
            r.spec_data() == (if lo.0 <= hi.0 {
                SpanData { lo, hi, ctxt, parent }
            } else {
                SpanData { lo: hi, hi: lo, ctxt, parent }
            }),
            r == Span::spec_new(lo, hi, ctxt, parent),
            r.ordered(),
    {
        if lo.0 <= hi.0 {
            Span { data: SpanData { lo, hi, ctxt, parent } }
        } else {
            Span { data: SpanData { lo: hi, hi: lo, ctxt, parent } }
        }
    }

    /// The data of this span.
    pub fn data(self) -> (r: SpanData)
        ensures
            r == self.spec_data(),
    {
        self.data
    }

    /// The start of this span.
    pub fn lo(self) -> (r: BytePos)
        ensures
            r == self.spec_data().lo,
    {
        self.data.lo
    }

    /// The end of this span.
    pub fn hi(self) -> (r: BytePos)
        ensures
            r == self.spec_data().hi,
    {
        self.data.hi
    }

    /// The syntax context of this span.
    pub fn ctxt(self) -> (r: SyntaxContext)
        ensures
            r == self.spec_data().ctxt,
    {
        self.data.ctxt
    }

    /// Whether this span comes from a macro expansion.
    pub fn from_expansion(self) -> (r: bool)
        ensures
            r == (self.spec_data().ctxt.0 != 0),
    {
        self.data.ctxt.0 != 0
    }

    /// This span with another start.
    pub fn with_lo(self, lo: BytePos) -> (r: Span)
        ensures
            r == Span::spec_new(lo, self.spec_data().hi, self.spec_data().ctxt, self.spec_data().parent),
    {
        Span::new(lo, self.data.hi, self.data.ctxt, self.data.parent)
    }

    /// This span with another end.
    pub fn with_hi(self, hi: BytePos) -> (r: Span)
        ensures
            r == Span::spec_new(self.spec_data().lo, hi, self.spec_data().ctxt, self.spec_data().parent),
    {
        Span::new(self.data.lo, hi, self.data.ctxt, self.data.parent)
    }

    /// The empty span at the end of this one.
    pub fn shrink_to_hi(self) -> (r: Span)
        ensures
            r.spec_data() == (SpanData { lo: self.spec_data().hi, ..self.spec_data() }),
    {
        Span { data: SpanData { lo: self.data.hi, ..self.data } }
    }

    /// The span that `new` makes.
    pub open spec fn spec_new(lo: BytePos, hi: BytePos, ctxt: SyntaxContext, parent: Option<LocalDefId>) -> Span {
        Span::from_data(if lo.0 <= hi.0 {
            SpanData { lo, hi, ctxt, parent }
        } else {
            SpanData { lo: hi, hi: lo, ctxt, parent }
        })
    }

    /// The span that holds `d` as it is.
    pub closed spec fn from_data(d: SpanData) -> Span {
        Span { data: d }
    }

    /// `from_data` keeps the data as it is, and a span is its data.
    pub proof fn lemma_from_data(d: SpanData, s: Span)
        ensures
            Span::from_data(d).spec_data() == d,
            Span::from_data(s.spec_data()) == s,
    {
    }
}

impl SpanData {
    /// The span for this data, with its bounds put in order.
    pub fn span(self) -> (r: Span)
        ensures
            r == Span::spec_new(self.lo, self.hi, self.ctxt, self.parent),
    {
        Span::new(self.lo, self.hi, self.ctxt, self.parent)
    }
}

} // verus!
