use vstd::prelude::*;

use vstd::string::StringSliceAdditionalSpecFns;

use crate::chars::{chars_of, is_white, is_white_char};

verus! {

/// `l` without one trailing carriage return.
pub open spec fn strip_cr(l: Seq<char>) -> Seq<char> {
    if l.len() > 0 && l.last() == '\r' {
        l.drop_last()
    } else {
        l
    }
}

/// The lines of `s[start..]` as `str::lines` yields them, where the current line began at
/// `start` and the scan has reached `i`: lines end at `'\n'` (dropping a `'\r'` before it), and
/// a last line without a line ending is kept only when it is not empty.
pub open spec fn lines_from(s: Seq<char>, start: int, i: int) -> Seq<Seq<char>>
    decreases s.len() - i,
{
    if i >= s.len() {
        if start < s.len() {
            seq![s.subrange(start, s.len() as int)]
        } else {
            seq![]
        }
    } else if s[i] == '\n' {
        seq![strip_cr(s.subrange(start, i))] + lines_from(s, i + 1, i + 1)
    } else {
        lines_from(s, start, i + 1)
    }
}

/// The lines of `s`, as `str::lines` splits them.
pub open spec fn lines_of(s: Seq<char>) -> Seq<Seq<char>> {
    lines_from(s, 0, 0)
}

/// The lines joined with `'\n'` between each two of them.
pub open spec fn join_lines(ls: Seq<Seq<char>>) -> Seq<char>
    decreases ls.len(),
{
    if ls.len() == 0 {
        seq![]
    } else if ls.len() == 1 {
        ls[0]
    } else {
        join_lines(ls.drop_last()) + seq!['\n'] + ls.last()
    }
}

/// The number of copies of `ch` that `l` starts with.
pub open spec fn lead_count(l: Seq<char>, ch: char) -> nat
    decreases l.len(),
{
    if l.len() > 0 && l[0] == ch {
        1 + lead_count(l.drop_first(), ch)
    } else {
        0
    }
}

/// The least `lead_count` over the non-empty lines of `ls[k..]`, if there is any.
pub open spec fn min_lead(ls: Seq<Seq<char>>, k: int, ch: char) -> Option<nat>
    decreases ls.len() - k,
{
    if k < 0 || k >= ls.len() {
        None
    } else {
        let rest = min_lead(ls, k + 1, ch);
        if ls[k].len() == 0 {
            rest
        } else {
            let n = lead_count(ls[k], ch);
            match rest {
                Some(m) => Some(if n <= m { n } else { m }),
                None => Some(n),
            }
        }
    }
}

/// `n` spaces.
pub open spec fn spaces(n: nat) -> Seq<char> {
    Seq::new(n, |_i: int| ' ')
}

/// Line `i` after moving it from indentation `x` to indentation `indent`.
pub open spec fn reindent_line(l: Seq<char>, i: int, ignore_first: bool, x: nat, indent: nat) -> Seq<
    char,
> {
    if (ignore_first && i == 0) || l.len() == 0 {
        l
    } else if x > indent {
        l.subrange(x - indent, l.len() as int)
    } else {
        spaces((indent - x) as nat) + l
    }
}

/// The common indentation (in copies of `ch`) of the lines that take part.
pub open spec fn common_indent(s: Seq<char>, ignore_first: bool, ch: char) -> nat {
    match min_lead(lines_of(s), if ignore_first { 1 } else { 0 }, ch) {
        Some(m) => m,
        None => 0,
    }
}

/// One pass of reindenting: the indentation made of `ch` that all lines share is replaced by
/// `indent` spaces.
pub open spec fn reindent_pass(s: Seq<char>, ignore_first: bool, indent: Option<usize>, ch: char) -> Seq<
    char,
> {
    let ls = lines_of(s);
    let x = common_indent(s, ignore_first, ch);
    let ind: nat = match indent {
        Some(n) => n as nat,
        None => 0,
    };
    join_lines(Seq::new(ls.len(), |i: int| reindent_line(ls[i], i, ignore_first, x, ind)))
}

/// Full reindenting: spaces, then tabs, then spaces again.
pub open spec fn reindent(s: Seq<char>, ignore_first: bool, indent: Option<usize>) -> Seq<char> {
    reindent_pass(
        reindent_pass(reindent_pass(s, ignore_first, indent, ' '), ignore_first, indent, '\t'),
        ignore_first,
        indent,
        ' ',
    )
}

/// Splits `s` into its lines, each as a slice of `s`.
fn split_lines<'a>(s: &'a str) -> (r: Vec<&'a str>)
    ensures
        r.len() == lines_of(s@).len(),
        forall|i: int| 0 <= i < r.len() ==> (#[trigger] r[i])@ == lines_of(s@)[i],
{
    let cs = chars_of(s);
    let n = cs.len();
    let mut out: Vec<&'a str> = Vec::new();
    let mut start: usize = 0;
    let mut i: usize = 0;
    while i < n
        invariant
            cs@ == s@,
            n == cs.len(),
            start <= i <= n,
            lines_of(s@) == out@.map_values(|l: &str| l@) + lines_from(s@, start as int, i as int),
        decreases n - i,
    {
        if cs[i] == '\n' {
            let mut end = i;
            if end > start && cs[end - 1] == '\r' {
                end = end - 1;
            }
            let line = s.substring_char(start, end);
            assert(line@ == strip_cr(s@.subrange(start as int, i as int)));
            let ghost prev = out@.map_values(|l: &str| l@);
            out.push(line);
            assert(out@.map_values(|l: &str| l@) == prev.push(line@));
            assert(lines_from(s@, start as int, i as int) == seq![line@] + lines_from(
                s@,
                i + 1,
                i + 1,
            ));
            assert(prev + lines_from(s@, start as int, i as int) == prev.push(line@)
                + lines_from(s@, i + 1, i + 1));
            start = i + 1;
        }
        i = i + 1;
    }
    if start < n {
        let line = s.substring_char(start, n);
        let ghost prev = out@.map_values(|l: &str| l@);
        out.push(line);
        assert(out@.map_values(|l: &str| l@) == prev.push(line@));
    } else {
        assert(out@.map_values(|l: &str| l@) + seq![] == out@.map_values(|l: &str| l@));
    }
    proof {
        let m = out@.map_values(|l: &str| l@);
        assert forall|k: int| 0 <= k < out.len() implies (#[trigger] out[k])@ == lines_of(s@)[k] by {
            assert(m[k] == out[k]@);
        }
    }
    out
}

/// Counts the copies of `ch` at the start of `l`.
fn leading_count(l: &str, ch: char) -> (r: usize)
    ensures
        r == lead_count(l@, ch),
{
    let cs = chars_of(l);
    let mut k: usize = cs.len();
    let mut i: usize = 0;
    let mut found = false;
    // find the first character other than `ch`
    while i < cs.len() && !found
        invariant
            cs@ == l@,
            i <= cs.len(),
            found ==> i < cs.len() && cs@[i as int] != ch,
            forall|j: int| 0 <= j < i ==> cs@[j] == ch,
            !found ==> k == cs.len(),
            found ==> k == i,
        decreases cs.len() - i + (if found { 0int } else { 1int }),
    {
        if cs[i] != ch {
            found = true;
            k = i;
        } else {
            i = i + 1;
        }
    }
    proof {
        lemma_lead_count(l@, ch, k as int);
    }
    k
}

/// `lead_count` is the length of the run of `ch` that stops at `k`.
proof fn lemma_lead_count(l: Seq<char>, ch: char, k: int)
    requires
        0 <= k <= l.len(),
        forall|j: int| 0 <= j < k ==> l[j] == ch,
        k < l.len() ==> l[k] != ch,
    ensures
        lead_count(l, ch) == k,
    decreases k,
{
    if k > 0 {
        lemma_lead_count(l.drop_first(), ch, k - 1);
    }
}


/// `lead_count` never exceeds the length of the line.
proof fn lemma_lead_count_le(l: Seq<char>, ch: char)
    ensures
        lead_count(l, ch) <= l.len(),
    decreases l.len(),
{
    if l.len() > 0 && l[0] == ch {
        lemma_lead_count_le(l.drop_first(), ch);
    }
}

/// The minimum is at most the count of each non-empty line that takes part.
proof fn lemma_min_lead_le(ls: Seq<Seq<char>>, k: int, ch: char, i: int)
    requires
        0 <= k <= i < ls.len(),
        ls[i].len() > 0,
    ensures
        min_lead(ls, k, ch) is Some,
        min_lead(ls, k, ch)->0 <= lead_count(ls[i], ch),
    decreases i - k,
{
    if k < i {
        lemma_min_lead_le(ls, k + 1, ch, i);
    }
}

/// Reindents every line of `s` by one pass over the indentation made of `ch`.
fn reindent_multiline_inner(s: &str, ignore_first: bool, indent: Option<usize>, ch: char) -> (r:
    String)
    ensures
        r@ == reindent_pass(s@, ignore_first, indent, ch),
{
    let ls = split_lines(s);
    let ghost sl = lines_of(s@);
    let first: usize = if ignore_first { 1 } else { 0 };
    // the least indentation over the lines that take part
    let mut k: usize = ls.len();
    let mut acc: Option<usize> = None;
    while k > first
        invariant
            ls.len() == sl.len(),
            forall|i: int| 0 <= i < ls.len() ==> (#[trigger] ls[i])@ == sl[i],
            first <= k <= ls.len() || (k == ls.len() && ls.len() < first),
            match acc {
                Some(a) => min_lead(sl, k as int, ch) == Some(a as nat),
                None => min_lead(sl, k as int, ch) is None,
            },
        decreases k,
    {
        k = k - 1;
        let l = ls[k];
        let n = leading_count(l, ch);
        if !l.is_empty() {
            acc = match acc {
                Some(m) => Some(if n <= m { n } else { m }),
                None => Some(n),
            };
        }
    }
    assert(min_lead(sl, first as int, ch) == min_lead(sl, k as int, ch)) by {
        if ls.len() < first {
            assert(min_lead(sl, first as int, ch) is None);
        }
    }
    let x: usize = match acc {
        Some(m) => m,
        None => 0,
    };
    let ind: usize = match indent {
        Some(n) => n,
        None => 0,
    };
    let ghost mapped = Seq::new(
        sl.len(),
        |i: int| reindent_line(sl[i], i, ignore_first, x as nat, ind as nat),
    );
    proof {
        reveal_strlit("\n");
        reveal_strlit(" ");
    }
    let mut out = String::new();
    let mut i: usize = 0;
    while i < ls.len()
        invariant
            ls.len() == sl.len(),
            forall|j: int| 0 <= j < ls.len() ==> (#[trigger] ls[j])@ == sl[j],
            i <= ls.len(),
            x == common_indent(s@, ignore_first, ch),
            sl == lines_of(s@),
            mapped.len() == sl.len(),
            forall|j: int| 0 <= j < sl.len() ==> #[trigger] mapped[j] == reindent_line(sl[j], j, ignore_first, x as nat, ind as nat),
            min_lead(sl, first as int, ch) is Some ==> x == min_lead(sl, first as int, ch)->0,
            min_lead(sl, first as int, ch) is None ==> x == 0,
            first == (if ignore_first { 1usize } else { 0usize }),
            out@ == join_lines(mapped.take(i as int)),
            "\n"@ == seq!['\n'],
            " "@ == seq![' '],
        decreases ls.len() - i,
    {
        let l = ls[i];
        let ghost before = out@;
        if i > 0 {
            out.append("\n");
        }
        let ghost with_sep = out@;
        if (ignore_first && i == 0) || l.is_empty() {
            out.append(l);
        } else if x > ind {
            proof {
                lemma_min_lead_le(sl, first as int, ch, i as int);
                lemma_lead_count_le(sl[i as int], ch);
            }
            let len = l.unicode_len();
            out.append(l.substring_char(x - ind, len));
        } else {
            let mut sp: usize = 0;
            while sp < ind - x
                invariant
                    sp <= ind - x,
                    out@ == with_sep + spaces(sp as nat),
                    " "@ == seq![' '],
                decreases ind - x - sp,
            {
                out.append(" ");
                assert(spaces(sp as nat).push(' ') == spaces((sp + 1) as nat));
                sp = sp + 1;
            }
            out.append(l);
            assert(with_sep + spaces(sp as nat) + l@ == with_sep + (spaces((ind - x) as nat) + l@));
        }
        proof {
            assert(mapped.take(i + 1).drop_last() == mapped.take(i as int));
            if i > 0 {
                assert(out@ == before + seq!['\n'] + mapped[i as int]);
            } else {
                assert(mapped.take(1) == seq![mapped[0]]);
            }
        }
        i = i + 1;
    }
    assert(mapped.take(ls.len() as int) == mapped);
    out
}


/// Reindents a multiline string, optionally leaving the first line alone: the indentation that
/// the lines share (in spaces, then in tabs, then in spaces again) is replaced by `indent`
/// spaces, or removed when `indent` is `None`. Empty lines stay empty.
pub fn reindent_multiline(s: &str, ignore_first: bool, indent: Option<usize>) -> (r: String)
    ensures
        r@ == reindent(s@, ignore_first, indent),
{
    let s_space = reindent_multiline_inner(s, ignore_first, indent, ' ');
    let s_tab = reindent_multiline_inner(s_space.as_str(), ignore_first, indent, '\t');
    reindent_multiline_inner(s_tab.as_str(), ignore_first, indent, ' ')
}

/// Whether the bytes `->` stand at `i`.
pub open spec fn rarrow_at(b: Seq<u8>, i: int) -> bool {
    0 <= i && i + 1 < b.len() && b[i] == 45u8 && b[i + 1] == 62u8
}

/// The last position below `n` where `->` stands.
pub open spec fn last_rarrow_below(b: Seq<u8>, n: int) -> Option<int>
    decreases n,
{
    if n <= 0 {
        None
    } else if rarrow_at(b, n - 1) {
        Some(n - 1)
    } else {
        last_rarrow_below(b, n - 1)
    }
}

/// Moves `r` back over whitespace characters of `cs`, stopping at 1.
pub open spec fn back_over_white(cs: Seq<char>, r: int) -> int
    decreases r,
{
    if r > 1 && r - 1 < cs.len() && is_white(cs[r - 1]) {
        back_over_white(cs, r - 1)
    } else {
        r
    }
}

/// The position just before the last `->` of `s` and the whitespace before it. The arrow is
/// found by byte offset, and that offset then counts characters while stepping back.
pub fn position_before_rarrow(s: &str) -> (r: Option<usize>)
    ensures
        r == match last_rarrow_below(s.spec_bytes(), s.spec_bytes().len() as int) {
            Some(p) => Some(back_over_white(s@, p) as usize),
            None => None::<usize>,
        },
{
    let b = s.as_bytes();
    let mut n: usize = b.len();
    let mut found: Option<usize> = None;
    while n > 0 && found.is_none()
        invariant
            b@ == s.spec_bytes(),
            n <= b.len(),
            found is None ==> last_rarrow_below(b@, b@.len() as int) == last_rarrow_below(b@, n as int),
            found is Some ==> last_rarrow_below(b@, b@.len() as int) == Some(found->0 as int),
        decreases n + (if found is None { 1int } else { 0int }),
    {
        if n >= 1 && n < b.len() && b[n - 1] == 45u8 && b[n] == 62u8 {
            found = Some(n - 1);
        } else {
            n = n - 1;
        }
    }
    match found {
        None => None,
        Some(p) => {
            let cs = chars_of(s);
            let mut rpos: usize = p;
            while rpos > 1 && rpos - 1 < cs.len() && is_white_char(cs[rpos - 1])
                invariant
                    cs@ == s@,
                    back_over_white(s@, p as int) == back_over_white(s@, rpos as int),
                decreases rpos,
            {
                rpos = rpos - 1;
            }
            Some(rpos)
        },
    }
}

} // verus!
