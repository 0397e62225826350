use clippy_source::file_range::SourceFileRange;
use clippy_source::hygiene::HygieneData;
use clippy_source::source_map::{SourceMap, SourceText};
use clippy_source::span::{BytePos, RelativeBytePos, Span, SpanData, SyntaxContext};
use clippy_source::span_like::SpanLike;

fn map_of(text: &str) -> SourceMap {
    let mut sm = SourceMap::new();
    assert_eq!(Some(0), sm.add_file(String::from("main.rs"), String::from(text)));
    sm
}

fn range(c: &SourceFileRange) -> (u32, u32) {
    let r = c.range();
    (r.start.0, r.end.0)
}

fn root_span(lo: u32, hi: u32) -> Span {
    Span::new(BytePos(lo), BytePos(hi), SyntaxContext::root(), None)
}

#[test]
fn current_text_is_the_covered_bytes() {
    let sm = map_of("let x = \u{e9}t\u{e9};");
    let c = SourceFileRange::new(&sm, BytePos(8)..BytePos(13)).unwrap();
    assert_eq!(Some("\u{e9}t\u{e9}"), c.current_text());
    assert_eq!("let x = \u{e9}t\u{e9};", c.file_text());
}

#[test]
fn new_rejects_split_characters_and_bad_order() {
    let sm = map_of("a\u{e9}b");
    assert!(SourceFileRange::new(&sm, BytePos(2)..BytePos(3)).is_none());
    assert!(SourceFileRange::new(&sm, BytePos(3)..BytePos(1)).is_none());
    assert!(SourceFileRange::new(&sm, BytePos(0)..BytePos(9)).is_none());
    assert!(SourceFileRange::new(&sm, BytePos(1)..BytePos(3)).is_some());
}

#[test]
fn new_fails_on_unloaded_file_until_loaded() {
    let mut sm = SourceMap::new();
    let idx = sm.add_unloaded_file(String::from("ext.rs"), 3).unwrap();
    assert!(SourceFileRange::new(&sm, BytePos(0)..BytePos(2)).is_none());
    assert!(!sm.load_source(idx, String::from("toolong")));
    assert!(sm.load_source(idx, String::from("abc")));
    assert!(sm.load_source(idx, String::from("xyz")));
    let c = SourceFileRange::new(&sm, BytePos(0)..BytePos(2)).unwrap();
    assert_eq!(Some("ab"), c.current_text());
}

#[test]
fn files_get_disjoint_positions() {
    let mut sm = SourceMap::new();
    assert_eq!(Some(0), sm.add_file(String::from("a.rs"), String::from("abc")));
    assert_eq!(Some(1), sm.add_file(String::from("b.rs"), String::from("xyz")));
    assert_eq!(BytePos(4), sm.file(1).start_pos());
    let c = SourceFileRange::new(&sm, BytePos(5)..BytePos(7)).unwrap();
    assert_eq!(Some("yz"), c.current_text());
    assert_eq!((1, 3), range(&c));
    let s = c.source_range();
    assert_eq!((5, 7), (s.start.0, s.end.0));
    // a range that starts in one file and ends in the next is refused
    assert!(SourceFileRange::new(&sm, BytePos(2)..BytePos(5)).is_none());
}

#[test]
fn between_other_after() {
    let sm = map_of("if a {} else {}");
    let mut c = SourceFileRange::new(&sm, BytePos(5)..BytePos(7)).unwrap();
    let r = c.set_range_between_other(BytePos(13)..BytePos(15)).map(|c| range(c));
    assert_eq!(Some((7, 13)), r);
    assert_eq!(Some(" else "), c.current_text());
}

#[test]
fn between_other_before() {
    let sm = map_of("if a {} else {}");
    let mut c = SourceFileRange::new(&sm, BytePos(13)..BytePos(15)).unwrap();
    let r = c.set_range_between_other(root_span(5, 7)).map(|c| range(c));
    assert_eq!(Some((7, 13)), r);
}

#[test]
fn between_other_overlapping_is_absent() {
    let sm = map_of("if a {} else {}");
    let mut c = SourceFileRange::new(&sm, BytePos(5)..BytePos(10)).unwrap();
    assert!(c.set_range_between_other(BytePos(8)..BytePos(15)).is_none());
    assert_eq!((5, 10), range(&c));
}

#[test]
fn between_touching_ranges_is_empty_gap() {
    let sm = map_of("if a {} else {}");
    let mut c = SourceFileRange::new(&sm, BytePos(5)..BytePos(10)).unwrap();
    assert_eq!(Some((10, 10)), c.set_range_between_other(BytePos(10)..BytePos(12)).map(|c| range(c)));
    let mut c = SourceFileRange::new(&sm, BytePos(5)..BytePos(10)).unwrap();
    assert_eq!(Some((5, 5)), c.set_range_between_other(BytePos(2)..BytePos(5)).map(|c| range(c)));
}

#[test]
fn trailing_whitespace_is_idempotent() {
    let sm = map_of("a =- \t\n 1;");
    let mut c = SourceFileRange::new(&sm, BytePos(2)..BytePos(4)).unwrap();
    assert_eq!(Some((2, 8)), c.add_trailing_whitespace().map(|c| range(c)));
    assert_eq!(Some((2, 8)), c.add_trailing_whitespace().map(|c| range(c)));
}

#[test]
fn trailing_whitespace_takes_unicode_spaces() {
    let sm = map_of("x\u{a0}\u{3000}y");
    let mut c = SourceFileRange::new(&sm, BytePos(0)..BytePos(1)).unwrap();
    assert_eq!(Some((0, 6)), c.add_trailing_whitespace().map(|c| range(c)));
}

#[test]
fn leading_whitespace_extends_back() {
    let sm = map_of("foo(a,   b)");
    let mut c = SourceFileRange::new(&sm, BytePos(9)..BytePos(10)).unwrap();
    assert_eq!(Some((6, 10)), c.add_leading_whitespace().map(|c| range(c)));
}

#[test]
fn leading_whitespace_stops_before_line_comment() {
    let sm = map_of("( // Some comment\nfoo)");
    let mut c = SourceFileRange::new(&sm, BytePos(18)..BytePos(21)).unwrap();
    assert_eq!(Some((18, 21)), c.add_leading_whitespace().map(|c| range(c)));
}

#[test]
fn leading_whitespace_crosses_comment_when_nothing_follows() {
    let sm = map_of("( // Some comment\nfoo\n)");
    let mut c = SourceFileRange::new(&sm, BytePos(18)..BytePos(21)).unwrap();
    assert_eq!(Some((17, 21)), c.add_leading_whitespace().map(|c| range(c)));
}

#[test]
fn remove_leading_whitespace_trims_start() {
    let sm = map_of("x =   value");
    let mut c = SourceFileRange::new(&sm, BytePos(3)..BytePos(11)).unwrap();
    assert_eq!(Some((6, 11)), c.remove_leading_whitespace().map(|c| range(c)));
}

#[test]
fn matches_and_prefixes() {
    let sm = map_of("a += b;");
    let mut c = SourceFileRange::new(&sm, BytePos(4)..BytePos(6)).unwrap();
    assert_eq!(Some((2, 6)), c.add_leading_match("+=").map(|c| range(c)));
    assert_eq!(Some((1, 6)), c.add_leading_match(" ").map(|c| range(c)));
    assert!(c.add_leading_match("b").is_none());
    let mut c = SourceFileRange::new(&sm, BytePos(2)..BytePos(4)).unwrap();
    assert_eq!(Some((2, 7)), c.add_trailing_match(" b;").map(|c| range(c)));
    assert!(c.add_trailing_match("x").is_none());
    let mut c = SourceFileRange::new(&sm, BytePos(0)..BytePos(7)).unwrap();
    assert_eq!(Some((0, 4)), c.set_to_prefix("a +=").map(|c| range(c)));
    let mut c = SourceFileRange::new(&sm, BytePos(0)..BytePos(7)).unwrap();
    assert_eq!(Some((5, 7)), c.set_to_suffix("b;").map(|c| range(c)));
    assert!(c.set_to_suffix("zz").is_none());
}

#[test]
fn start_and_end_moves() {
    let sm = map_of("0123456789");
    let mut c = SourceFileRange::new(&sm, BytePos(3)..BytePos(6)).unwrap();
    assert!(c.set_start_if_before(BytePos(4)).is_none());
    assert_eq!(Some((1, 6)), c.set_start_if_before(BytePos(1)).map(|c| range(c)));
    assert!(c.set_start_if_within(BytePos(7)).is_none());
    assert_eq!(Some((2, 6)), c.set_start_if_within(BytePos(2)).map(|c| range(c)));
    assert!(c.set_end_if_after(BytePos(5)).is_none());
    assert_eq!(Some((2, 9)), c.set_end_if_after(BytePos(9)).map(|c| range(c)));
    assert!(c.set_end_if_after(BytePos(11)).is_none());
    assert_eq!(Some((2, 4)), c.set_end_if_within(BytePos(4)).map(|c| range(c)));
    let c = c.set_range(RelativeBytePos(0)..RelativeBytePos(10));
    assert_eq!(Some("0123456789"), c.current_text());
}

#[test]
fn edit_range_commits_valid_ranges_only() {
    let sm = map_of("abc def");
    let mut c = SourceFileRange::new(&sm, BytePos(0)..BytePos(3)).unwrap();
    assert!(c.edit_range(|_, r| Some(r.end + 1..r.end + 4)).is_some());
    assert_eq!(Some("def"), c.current_text());
    assert!(c.edit_range(|_, r| Some(r.end..r.start)).is_none());
    assert!(c.edit_range(|_, _| None).is_none());
    assert_eq!(Some("def"), c.current_text());
}

#[test]
fn line_indent_of_mid_line_range() {
    let sm = map_of("fn f() {\n\tlet a = 0;\n    let x = 1;\n}");
    let c = SourceFileRange::new(&sm, BytePos(29)..BytePos(30)).unwrap();
    assert_eq!(Some("x"), c.current_text());
    assert_eq!("    ", c.get_line_indent());
    let c = SourceFileRange::new(&sm, BytePos(0)..BytePos(2)).unwrap();
    assert_eq!("", c.get_line_indent());
}

#[test]
fn text_handles() {
    let sm = map_of("hello world");
    let c = SourceFileRange::new(&sm, BytePos(6)..BytePos(11)).unwrap();
    assert_eq!("world", c.as_text().unwrap().as_str());
    assert_eq!("world", c.into_text().unwrap().to_owned());
    let t = SourceText::new(sm.file(0)).unwrap();
    assert_eq!(Some("ell"), t.with_index(1, 4).map(|t| t.as_str()));
    assert!(t.with_index(4, 1).is_none());
    let c2 = SourceFileRange::new(&sm, BytePos(0)..BytePos(1)).unwrap();
    assert!(c.is_same_file_as(&c2));
}

#[test]
fn walk_to_own_context_is_identity() {
    let mut h = HygieneData::new();
    let ctxt = h.add_expansion(SpanData { lo: BytePos(0), hi: BytePos(9), ctxt: SyntaxContext::root(), parent: None }, false).unwrap();
    let s = Span::new(BytePos(3), BytePos(5), ctxt, None);
    let r = s.walk_to_ctxt(&h, ctxt).unwrap();
    assert_eq!((BytePos(3), BytePos(5)), (r.start, r.end));
    let r = s.walk_to_ctxt(&h, SyntaxContext::root()).unwrap();
    assert_eq!((BytePos(0), BytePos(9)), (r.start, r.end));
    let r = (BytePos(1)..BytePos(2)).walk_to_ctxt(&h, ctxt);
    assert!(r.is_none());
}

#[test]
fn span_round_trip() {
    let s = Span::new(BytePos(7), BytePos(2), SyntaxContext(3), None);
    assert_eq!((BytePos(2), BytePos(7)), (s.lo(), s.hi()));
    let back = Span::from_span_data(s.into_span_data());
    assert_eq!(s, back);
    let d = SpanData { lo: BytePos(1), hi: BytePos(4), ctxt: SyntaxContext(2), parent: None };
    assert_eq!(d, SpanData::from_span_data(d).into_span_data());
    let r = BytePos(1)..BytePos(4);
    assert_eq!(r.clone(), <std::ops::Range<BytePos> as SpanLike>::from_span_data(r.clone().into_span_data()));
}

#[test]
fn walk_through_nested_macros() {
    // f3(m2!(0)) where m2 expands to f2(m1!($e)) and m1 to f1($e)
    let mut h = HygieneData::new();
    let m2 = h.add_expansion(SpanData { lo: BytePos(3), hi: BytePos(9), ctxt: SyntaxContext::root(), parent: None }, false).unwrap();
    let m1 = h.add_expansion(SpanData { lo: BytePos(20), hi: BytePos(28), ctxt: m2, parent: None }, false).unwrap();
    let f1 = Span::new(BytePos(40), BytePos(45), m1, None);
    let to_root = clippy_source::hygiene::walk_span_to_context(&h, f1, SyntaxContext::root()).unwrap();
    assert_eq!((BytePos(3), BytePos(9)), (to_root.lo(), to_root.hi()));
    let to_m2 = clippy_source::hygiene::walk_span_to_context(&h, f1, m2).unwrap();
    assert_eq!((BytePos(20), BytePos(28)), (to_m2.lo(), to_m2.hi()));
    let zero = Span::new(BytePos(7), BytePos(8), SyntaxContext::root(), None);
    assert!(clippy_source::hygiene::walk_span_to_context(&h, zero, m2).is_none());
    assert!(!h.in_external_macro(m1));
}

#[test]
fn address_space_and_context_limits() {
    let mut sm = SourceMap::new();
    assert_eq!(Some(0), sm.add_unloaded_file(String::from("big.rs"), u32::MAX));
    assert_eq!(None, sm.add_file(String::from("a.rs"), String::from("a")));
    assert_eq!(None, sm.add_unloaded_file(String::from("b.rs"), 0));
    assert_eq!(1, sm.len());
    let mut h = HygieneData::new();
    let unknown = SpanData { lo: BytePos(0), hi: BytePos(1), ctxt: SyntaxContext(5), parent: None };
    assert_eq!(None, h.add_expansion(unknown, false));
    assert_eq!(1, h.len());
}

#[test]
fn line_lookup() {
    let sm = map_of("ab\ncd\n\nef");
    let f = sm.file(0);
    assert_eq!(4, f.line_count());
    assert_eq!(Some(0), f.lookup_line(RelativeBytePos(1)));
    assert_eq!(Some(1), f.lookup_line(RelativeBytePos(3)));
    assert_eq!(Some(2), f.lookup_line(RelativeBytePos(6)));
    assert_eq!(Some(3), f.lookup_line(RelativeBytePos(9)));
    assert_eq!(Some(RelativeBytePos(7)), f.line_start(3));
    assert_eq!(None, f.line_start(4));
    assert_eq!("main.rs", f.name());
}
