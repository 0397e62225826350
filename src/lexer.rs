use vstd::prelude::*;

use vstd::string::StringSliceAdditionalSpecFns;

use crate::text::{on_boundary, str_get};

verus! {

#[verifier::external_type_specification]
pub struct ExBase(rustc_lexer::Base);

#[verifier::external_type_specification]
pub struct ExLiteralKind(rustc_lexer::LiteralKind);

#[verifier::external_type_specification]
pub struct ExTokenKind(rustc_lexer::TokenKind);

#[verifier::external_type_specification]
pub struct ExToken(rustc_lexer::Token);

/// The base of an integer or float literal.
#[derive(Clone, Copy, Debug, PartialEq, Eq, Structural)]
pub enum LitBase {
    Binary,
    Octal,
    Hexadecimal,
    Decimal,
}

/// The kind of a literal token, with what the lexer records of it.
#[derive(Clone, Copy, Debug, PartialEq, Eq, Structural)]
pub enum LitKind {
    Int { base: LitBase, empty_int: bool },
    Float { base: LitBase, empty_exponent: bool },
    Char { terminated: bool },
    Byte { terminated: bool },
    Str { terminated: bool },
    ByteStr { terminated: bool },
    RawStr { n_hashes: usize, started: bool, terminated: bool },
    RawByteStr { n_hashes: usize, started: bool, terminated: bool },
}

/// The kinds of tokens that the text probes read.
#[derive(Clone, Copy, Debug, PartialEq, Eq, Structural)]
pub enum LexKind {
    Whitespace,
    LineComment,
    BlockComment { terminated: bool },
    Ident,
    Literal { kind: LitKind, suffix_start: usize },
    /// Any other token (punctuation, raw identifiers, lifetimes, unknown characters).
    Other,
}

/// One token: its kind and its length in bytes.
#[derive(Clone, Copy, Debug, PartialEq, Eq, Structural)]
pub struct LexToken {
    pub kind: LexKind,
    pub len: usize,
}

/// A literal base of the lexer as the library writes it.
pub open spec fn lit_base(b: rustc_lexer::Base) -> LitBase {
    match b {
        rustc_lexer::Base::Binary => LitBase::Binary,
        rustc_lexer::Base::Octal => LitBase::Octal,
        rustc_lexer::Base::Hexadecimal => LitBase::Hexadecimal,
        rustc_lexer::Base::Decimal => LitBase::Decimal,
    }
}

/// A literal kind of the lexer as the library writes it.
pub open spec fn lit_kind(k: rustc_lexer::LiteralKind) -> LitKind {
    match k {
        rustc_lexer::LiteralKind::Int { base, empty_int } => LitKind::Int { base: lit_base(base), empty_int },
        rustc_lexer::LiteralKind::Float { base, empty_exponent } => LitKind::Float {
            base: lit_base(base),
            empty_exponent,
        },
        rustc_lexer::LiteralKind::Char { terminated } => LitKind::Char { terminated },
        rustc_lexer::LiteralKind::Byte { terminated } => LitKind::Byte { terminated },
        rustc_lexer::LiteralKind::Str { terminated } => LitKind::Str { terminated },
        rustc_lexer::LiteralKind::ByteStr { terminated } => LitKind::ByteStr { terminated },
        rustc_lexer::LiteralKind::RawStr { n_hashes, started, terminated } => LitKind::RawStr {
            n_hashes,
            started,
            terminated,
        },
        rustc_lexer::LiteralKind::RawByteStr { n_hashes, started, terminated } => LitKind::RawByteStr {
            n_hashes,
            started,
            terminated,
        },
    }
}

/// A token of the lexer as the library writes it.
pub open spec fn lex_token(t: rustc_lexer::Token) -> LexToken {
    let kind = match t.kind {
        rustc_lexer::TokenKind::Whitespace => LexKind::Whitespace,
        rustc_lexer::TokenKind::LineComment => LexKind::LineComment,
        rustc_lexer::TokenKind::BlockComment { terminated } => LexKind::BlockComment { terminated },
        rustc_lexer::TokenKind::Ident => LexKind::Ident,
        rustc_lexer::TokenKind::Literal { kind, suffix_start } => LexKind::Literal {
            kind: lit_kind(kind),
            suffix_start,
        },
        _ => LexKind::Other,
    };
    LexToken { kind, len: t.len }
}

fn classify_base(b: &rustc_lexer::Base) -> (r: LitBase)
    ensures
        r == lit_base(*b),
{
    match b {
        rustc_lexer::Base::Binary => LitBase::Binary,
        rustc_lexer::Base::Octal => LitBase::Octal,
        rustc_lexer::Base::Hexadecimal => LitBase::Hexadecimal,
        rustc_lexer::Base::Decimal => LitBase::Decimal,
    }
}

fn classify_literal(k: &rustc_lexer::LiteralKind) -> (r: LitKind)
    ensures
        r == lit_kind(*k),
{
    match k {
        rustc_lexer::LiteralKind::Int { base, empty_int } => LitKind::Int {
            base: classify_base(base),
            empty_int: *empty_int,
        },
        rustc_lexer::LiteralKind::Float { base, empty_exponent } => LitKind::Float {
            base: classify_base(base),
            empty_exponent: *empty_exponent,
        },
        rustc_lexer::LiteralKind::Char { terminated } => LitKind::Char { terminated: *terminated },
        rustc_lexer::LiteralKind::Byte { terminated } => LitKind::Byte { terminated: *terminated },
        rustc_lexer::LiteralKind::Str { terminated } => LitKind::Str { terminated: *terminated },
        rustc_lexer::LiteralKind::ByteStr { terminated } => LitKind::ByteStr { terminated: *terminated },
        rustc_lexer::LiteralKind::RawStr { n_hashes, started, terminated } => LitKind::RawStr {
            n_hashes: *n_hashes,
            started: *started,
            terminated: *terminated,
        },
        rustc_lexer::LiteralKind::RawByteStr { n_hashes, started, terminated } => LitKind::RawByteStr {
            n_hashes: *n_hashes,
            started: *started,
            terminated: *terminated,
        },
    }
}

/// Writes a token of the lexer as the library's `LexToken`.
fn classify(t: &rustc_lexer::Token) -> (r: LexToken)
    ensures
        r == lex_token(*t),
{
    let kind = match &t.kind {
        rustc_lexer::TokenKind::Whitespace => LexKind::Whitespace,
        rustc_lexer::TokenKind::LineComment => LexKind::LineComment,
        rustc_lexer::TokenKind::BlockComment { terminated } => LexKind::BlockComment { terminated: *terminated },
        rustc_lexer::TokenKind::Ident => LexKind::Ident,
        rustc_lexer::TokenKind::Literal { kind, suffix_start } => LexKind::Literal {
            kind: classify_literal(kind),
            suffix_start: *suffix_start,
        },
        _ => LexKind::Other,
    };
    LexToken { kind, len: t.len }
}

/// The first token of a non-empty text, as the Rust lexer reads it.
pub uninterp spec fn first_token_of(b: Seq<u8>) -> LexToken;

/// Relies on `rustc_lexer::first_token`: the token at the start of `s`; which token that is
/// depends on the text alone.
#[verifier::external_body]
fn lex_first(s: &str) -> (r: rustc_lexer::Token)
    requires
        s.spec_bytes().len() > 0,
    ensures
        lex_token(r) == first_token_of(s.spec_bytes()),
{
    rustc_lexer::first_token(s)
}

/// Whether `t` can be the first token of `b` and leave the rest to be read on.
pub open spec fn token_fits(b: Seq<u8>, t: LexToken) -> bool {
    1 <= t.len <= b.len() && on_boundary(b, t.len as int)
}

/// The tokens of `b` with their text, read one after another from the start.
pub open spec fn lex(b: Seq<u8>) -> Seq<(LexKind, Seq<u8>)>
    decreases b.len(),
{
    if b.len() == 0 {
        seq![]
    } else {
        let t = first_token_of(b);
        if token_fits(b, t) {
            seq![(t.kind, b.subrange(0, t.len as int))] + lex(b.subrange(t.len as int, b.len() as int))
        } else {
            seq![]
        }
    }
}

/// Splits `s` into its tokens, each with its text.
pub fn tokenize_with_text<'a>(s: &'a str) -> (r: Vec<(LexKind, &'a str)>)
    ensures
        r@.len() == lex(s.spec_bytes()).len(),
        forall|i: int|
            0 <= i < r@.len() ==> (#[trigger] r@[i]).0 == lex(s.spec_bytes())[i].0 && r@[i].1.spec_bytes()
                == lex(s.spec_bytes())[i].1,
{
    let mut out: Vec<(LexKind, &'a str)> = Vec::new();
    let mut rest: &'a str = s;
    loop
        invariant
            lex(s.spec_bytes()).len() == out@.len() + lex(rest.spec_bytes()).len(),
            forall|i: int|
                0 <= i < out@.len() ==> (#[trigger] out@[i]).0 == lex(s.spec_bytes())[i].0
                    && out@[i].1.spec_bytes() == lex(s.spec_bytes())[i].1,
            forall|i: int|
                0 <= i < lex(rest.spec_bytes()).len() ==> #[trigger] lex(rest.spec_bytes())[i] == lex(
                    s.spec_bytes(),
                )[out@.len() + i],
        ensures
            lex(s.spec_bytes()).len() == out@.len(),
            forall|i: int|
                0 <= i < out@.len() ==> (#[trigger] out@[i]).0 == lex(s.spec_bytes())[i].0
                    && out@[i].1.spec_bytes() == lex(s.spec_bytes())[i].1,
        decreases rest.spec_bytes().len(),
    {
        let n = rest.as_bytes().len();
        if n == 0 {
            assert(lex(rest.spec_bytes()) == Seq::<(LexKind, Seq<u8>)>::empty());
            break;
        }
        let t = classify(&lex_first(rest));
        if t.len < 1 || t.len > n {
            assert(lex(rest.spec_bytes()) == Seq::<(LexKind, Seq<u8>)>::empty());
            break;
        }
        let head = str_get(rest, 0, t.len);
        let tail = str_get(rest, t.len, n);
        match (head, tail) {
            (Some(h), Some(tl)) => {
                let ghost rb = rest.spec_bytes();
                assert(lex(rb) == seq![(t.kind, rb.subrange(0, t.len as int))] + lex(tl.spec_bytes()));
                assert(lex(rb)[0] == (t.kind, h.spec_bytes()));
                let ghost before = out@;
                out.push((t.kind, h));
                proof {
                    assert forall|i: int| 0 <= i < lex(tl.spec_bytes()).len() implies #[trigger] lex(tl.spec_bytes())[i] == lex(
                        s.spec_bytes(),
                    )[out@.len() + i] by {
                        assert(lex(tl.spec_bytes())[i] == lex(rb)[i + 1]);
                    }
                    assert forall|i: int| 0 <= i < out@.len() implies (#[trigger] out@[i]).0 == lex(s.spec_bytes())[i].0
                        && out@[i].1.spec_bytes() == lex(s.spec_bytes())[i].1 by {
                        if i == before.len() {
                            assert(lex(rb)[0] == lex(s.spec_bytes())[before.len() as int]);
                        }
                    }
                }
                rest = tl;
            },
            _ => {
                assert(!token_fits(rest.spec_bytes(), t));
                assert(lex(rest.spec_bytes()) == Seq::<(LexKind, Seq<u8>)>::empty());
                break;
            },
        }
    }
    out
}

} // verus!
