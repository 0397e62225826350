use vstd::prelude::*;

use vstd::string::StringSliceAdditionalSpecFns;
use vstd::utf8::{
    encode_utf8_valid_utf8, is_char_boundary_iff_not_is_continuation_byte,
    is_char_boundary_start_end_of_seq, length_of_first_scalar, pop_first_scalar, valid_first_scalar,
    valid_utf8, valid_utf8_split,
};

verus! {

/// Whether byte offset `i` of `b` starts a character or ends the text: the byte there is not a
/// UTF-8 continuation byte.
pub open spec fn on_boundary(b: Seq<u8>, i: int) -> bool {
    i == 0 || i == b.len() || (0 < i < b.len() && (b[i] < 0x80u8 || b[i] >= 0xc0u8))
}

/// Whether `start..end` is a well-formed range of `b` whose ends fall between characters.
pub open spec fn valid_range(b: Seq<u8>, start: int, end: int) -> bool {
    0 <= start <= end <= b.len() && on_boundary(b, start) && on_boundary(b, end)
}

/// Relies on `str::get` with a byte range: it gives the subslice exactly when the range is in
/// order, within the string, and both ends are character boundaries.
#[verifier::external_body]
pub fn str_get(s: &str, start: usize, end: usize) -> (r: Option<&str>)
    ensures
        r is Some <==> valid_range(s.spec_bytes(), start as int, end as int),
        r is Some ==> r->0.spec_bytes() == s.spec_bytes().subrange(start as int, end as int),
{
    s.get(start..end)
}

/// Tests `on_boundary` on the bytes of `s`.
pub fn is_boundary(s: &str, i: usize) -> (r: bool)
    ensures
        r == on_boundary(s.spec_bytes(), i as int),
{
    let b = s.as_bytes();
    i == 0 || i == b.len() || (i < b.len() && (b[i] < 0x80u8 || b[i] >= 0xc0u8))
}


/// A one-byte whitespace character: tab, line feed, vertical tab, form feed, carriage return
/// or space.
pub open spec fn ascii_white(x: u8) -> bool {
    (9u8 <= x && x <= 13u8) || x == 32u8
}

/// The three-byte UTF-8 encodings of whitespace characters (U+1680, U+2000 to U+200A, U+2028,
/// U+2029, U+202F, U+205F and U+3000).
pub open spec fn white3(x: u8, y: u8, z: u8) -> bool {
    (x == 0xe1u8 && y == 0x9au8 && z == 0x80u8) || (x == 0xe2u8 && y == 0x80u8 && ((0x80u8 <= z
        && z <= 0x8au8) || z == 0xa8u8 || z == 0xa9u8 || z == 0xafu8)) || (x == 0xe2u8 && y
        == 0x81u8 && z == 0x9fu8) || (x == 0xe3u8 && y == 0x80u8 && z == 0x80u8)
}

/// The two-byte encodings of whitespace characters (U+0085 and U+00A0).
pub open spec fn white2(x: u8, y: u8) -> bool {
    x == 0xc2u8 && (y == 0x85u8 || y == 0xa0u8)
}

/// The length in bytes of the whitespace character that starts at `i`, or 0 where none does.
pub open spec fn white_len_at(b: Seq<u8>, i: int) -> int {
    if i < 0 || i >= b.len() {
        0
    } else if ascii_white(b[i]) {
        1
    } else if i + 1 < b.len() && white2(b[i], b[i + 1]) {
        2
    } else if i + 2 < b.len() && white3(b[i], b[i + 1], b[i + 2]) {
        3
    } else {
        0
    }
}

/// The length in bytes of the whitespace character that ends at `i`, or 0 where none does.
pub open spec fn white_len_before(b: Seq<u8>, i: int) -> int {
    if i < 1 || i > b.len() {
        0
    } else if ascii_white(b[i - 1]) {
        1
    } else if i >= 2 && white2(b[i - 2], b[i - 1]) {
        2
    } else if i >= 3 && white3(b[i - 3], b[i - 2], b[i - 1]) {
        3
    } else {
        0
    }
}

/// The end of the run of whitespace that starts at `i`.
pub open spec fn white_end(b: Seq<u8>, i: int) -> int
    decreases b.len() - i,
{
    if 0 <= i < b.len() && white_len_at(b, i) > 0 {
        white_end(b, i + white_len_at(b, i))
    } else {
        i
    }
}

/// The start of the run of whitespace that ends at `i`.
pub open spec fn white_start(b: Seq<u8>, i: int) -> int
    decreases i,
{
    if 0 < i <= b.len() && white_len_before(b, i) > 0 {
        white_start(b, i - white_len_before(b, i))
    } else {
        i
    }
}

/// The length of the whitespace character at `i` of `b`.
pub fn white_len_at_exec(b: &[u8], i: usize) -> (r: usize)
    ensures
        r == white_len_at(b@, i as int),
{
    let n = b.len();
    if i >= n {
        0
    } else if (9u8 <= b[i] && b[i] <= 13u8) || b[i] == 32u8 {
        1
    } else if i + 1 < n && b[i] == 0xc2u8 && (b[i + 1] == 0x85u8 || b[i + 1] == 0xa0u8) {
        2
    } else if n - i > 2 && white3_exec(b[i], b[i + 1], b[i + 2]) {
        3
    } else {
        0
    }
}

/// The length of the whitespace character that ends at `i` of `b`.
pub fn white_len_before_exec(b: &[u8], i: usize) -> (r: usize)
    ensures
        r == white_len_before(b@, i as int),
{
    let n = b.len();
    if i < 1 || i > n {
        0
    } else if (9u8 <= b[i - 1] && b[i - 1] <= 13u8) || b[i - 1] == 32u8 {
        1
    } else if i >= 2 && b[i - 2] == 0xc2u8 && (b[i - 1] == 0x85u8 || b[i - 1] == 0xa0u8) {
        2
    } else if i >= 3 && white3_exec(b[i - 3], b[i - 2], b[i - 1]) {
        3
    } else {
        0
    }
}

fn white3_exec(x: u8, y: u8, z: u8) -> (r: bool)
    ensures
        r == white3(x, y, z),
{
    (x == 0xe1u8 && y == 0x9au8 && z == 0x80u8) || (x == 0xe2u8 && y == 0x80u8 && ((0x80u8 <= z
        && z <= 0x8au8) || z == 0xa8u8 || z == 0xa9u8 || z == 0xafu8)) || (x == 0xe2u8 && y
        == 0x81u8 && z == 0x9fu8) || (x == 0xe3u8 && y == 0x80u8 && z == 0x80u8)
}

/// Skips the whitespace of `b[i..lim]` and returns where it ends.
pub fn skip_white(b: &[u8], i: usize, lim: usize) -> (r: usize)
    requires
        i <= lim <= b@.len(),
    ensures
        r == white_end(b@.subrange(0, lim as int), i as int),
        i <= r <= lim,
{
    let ghost p = b@.subrange(0, lim as int);
    let mut j = i;
    loop
        invariant
            i <= j <= lim <= b@.len(),
            p == b@.subrange(0, lim as int),
            white_end(p, j as int) == white_end(p, i as int),
        decreases lim - j,
    {
        if j >= lim {
            return j;
        }
        let w = white_len_at_exec(b, j);
        if w == 0 || w > lim - j {
            assert(white_len_at(p, j as int) == 0);
            return j;
        }
        assert(white_len_at(p, j as int) == w);
        j = j + w;
    }
}

/// Steps back over the whitespace that ends at `i` and returns where it starts.
pub fn skip_white_back(b: &[u8], i: usize) -> (r: usize)
    requires
        i <= b@.len(),
    ensures
        r == white_start(b@, i as int),
        r <= i,
{
    let mut j = i;
    loop
        invariant
            j <= i <= b@.len(),
            white_start(b@, j as int) == white_start(b@, i as int),
        decreases j,
    {
        let w = white_len_before_exec(b, j);
        if w == 0 {
            return j;
        }
        j = j - w;
    }
}

/// A run of whitespace ends where no whitespace character starts, so skipping twice is
/// skipping once.
pub proof fn lemma_white_end_idempotent(b: Seq<u8>, i: int)
    ensures
        white_end(b, white_end(b, i)) == white_end(b, i),
        i <= white_end(b, i),
    decreases b.len() - i,
{
    if 0 <= i < b.len() && white_len_at(b, i) > 0 {
        lemma_white_end_idempotent(b, i + white_len_at(b, i));
    }
}


/// Whether `s` without its trailing whitespace is exactly `{`.
pub open spec fn is_open_brace_line(b: Seq<u8>) -> bool {
    white_start(b, b.len() as int) == 1 && b[0] == 123u8
}

/// Tests whether `s`, once its trailing whitespace is trimmed, is a lone `{`: the opening of a
/// block with nothing (no comment, no attribute) before its first expression.
pub fn is_open_brace_only(s: &str) -> (r: bool)
    ensures
        r == is_open_brace_line(s.spec_bytes()),
{
    let b = s.as_bytes();
    let end = skip_white_back(b, b.len());
    end == 1 && b[0] == 123u8
}

/// Tests whether `s` ends with a comma.
pub fn ends_with_comma(s: &str) -> (r: bool)
    ensures
        r == (s.spec_bytes().len() > 0 && s.spec_bytes().last() == 44u8),
{
    let b = s.as_bytes();
    b.len() > 0 && b[b.len() - 1] == 44u8
}


/// A whitespace character ending at `i` starts with a leading byte, so stepping back over
/// whitespace from a boundary stays on boundaries.
pub proof fn lemma_white_start_boundary(t: Seq<u8>, i: int)
    requires
        0 <= i <= t.len(),
        on_boundary(t, i),
    ensures
        on_boundary(t, white_start(t, i)),
    decreases i,
{
    if 0 < i <= t.len() && white_len_before(t, i) > 0 {
        lemma_white_start_boundary(t, i - white_len_before(t, i));
    }
}

/// In valid UTF-8, a whitespace character that starts on a boundary ends on one.
pub proof fn lemma_white_step(t: Seq<u8>, i: int)
    requires
        valid_utf8(t),
        0 <= i < t.len(),
        on_boundary(t, i),
        white_len_at(t, i) > 0,
    ensures
        on_boundary(t, i + white_len_at(t, i)),
{
    let w = white_len_at(t, i);
    if i + w < t.len() {
        if i > 0 {
            is_char_boundary_iff_not_is_continuation_byte(t, i);
        } else {
            is_char_boundary_start_end_of_seq(t);
        }
        valid_utf8_split(t, i);
        let u = t.subrange(i, t.len() as int);
        assert(valid_utf8(u));
        assert(u[0] == t[i]);
        assert(length_of_first_scalar(u) == w);
        let rest = pop_first_scalar(u);
        assert(rest =~= t.subrange(i + w, t.len() as int));
        assert(valid_utf8(rest));
        assert(rest.len() > 0);
        assert(valid_first_scalar(rest));
        assert(rest[0] == t[i + w]);
    }
}

/// In valid UTF-8, skipping the whitespace that starts on a boundary ends on a boundary.
pub proof fn lemma_white_end_boundary(t: Seq<u8>, i: int)
    requires
        valid_utf8(t),
        0 <= i <= t.len(),
        on_boundary(t, i),
    ensures
        on_boundary(t, white_end(t, i)),
        i <= white_end(t, i) <= t.len(),
    decreases t.len() - i,
{
    if 0 <= i < t.len() && white_len_at(t, i) > 0 {
        lemma_white_step(t, i);
        lemma_white_end_boundary(t, i + white_len_at(t, i));
    }
}

/// The bytes of a string are valid UTF-8.
pub proof fn lemma_str_valid(s: &str)
    ensures
        valid_utf8(s.spec_bytes()),
{
    encode_utf8_valid_utf8(s@);
}


/// In valid UTF-8, skipping the whitespace of `t[..e]` from a boundary ends on a boundary, when
/// `e` is one.
pub proof fn lemma_prefix_white_end_boundary(t: Seq<u8>, i: int, e: int)
    requires
        valid_utf8(t),
        0 <= i <= e <= t.len(),
        on_boundary(t, i),
        on_boundary(t, e),
    ensures
        on_boundary(t, white_end(t.subrange(0, e), i)),
        i <= white_end(t.subrange(0, e), i) <= e,
{
    let p = t.subrange(0, e);
    is_char_boundary_start_end_of_seq(t);
    if 0 < e < t.len() {
        is_char_boundary_iff_not_is_continuation_byte(t, e);
    }
    valid_utf8_split(t, e);
    assert(valid_utf8(p));
    assert(on_boundary(p, i));
    lemma_white_end_boundary(p, i);
}

} // verus!
