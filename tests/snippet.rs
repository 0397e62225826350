use clippy_source::diagnostic::{Applicability, Lint};
use clippy_source::hygiene::HygieneData;
use clippy_source::needless_else::check_needless_else;
use clippy_source::snippet::{
    expand_past_previous_comma, expr_block, first_line_of_span, indent_of, is_present_in_source, line_span, snippet,
    snippet_block, snippet_indent, snippet_opt, snippet_with_applicability, snippet_with_context,
    str_literal_to_char_literal, trim_span,
};
use clippy_source::source_map::SourceMap;
use clippy_source::span::{BytePos, Span, SpanData, SyntaxContext};
use clippy_source::span_like::SpanExt;

fn map_of(text: &str) -> SourceMap {
    let mut sm = SourceMap::new();
    assert_eq!(Some(0), sm.add_file(String::from("main.rs"), String::from(text)));
    sm
}

fn sp(lo: u32, hi: u32) -> Span {
    Span::new(BytePos(lo), BytePos(hi), SyntaxContext::root(), None)
}

#[test]
fn snippets_and_defaults() {
    let sm = map_of("let value = Vec::new();");
    assert_eq!(Some(String::from("value")), snippet_opt(&sm, sp(4, 9)));
    assert_eq!("Vec::new()", snippet(&sm, sp(12, 22), ".."));
    assert_eq!("..", snippet(&sm, sp(12, 99), ".."));
    assert!(snippet_opt(&sm, sp(30, 31)).is_none());
}

#[test]
fn snippet_applicability_tracks_macros_and_defaults() {
    let sm = map_of("let value = Vec::new();");
    let mut h = HygieneData::new();
    let m = h.add_expansion(SpanData { lo: BytePos(12), hi: BytePos(22), ctxt: SyntaxContext::root(), parent: None }, false).unwrap();
    let mut app = Applicability::MachineApplicable;
    assert_eq!("value", snippet_with_applicability(&sm, sp(4, 9), "_", &mut app));
    assert_eq!(Applicability::MachineApplicable, app);
    assert_eq!("_", snippet_with_applicability(&sm, sp(40, 41), "_", &mut app));
    assert_eq!(Applicability::HasPlaceholders, app);
    let mut app = Applicability::MachineApplicable;
    let in_macro = Span::new(BytePos(12), BytePos(15), m, None);
    assert_eq!("Vec", snippet_with_applicability(&sm, in_macro, "_", &mut app));
    assert_eq!(Applicability::MaybeIncorrect, app);
    let mut app = Applicability::MachineApplicable;
    let (text, is_macro) = snippet_with_context(&sm, &h, in_macro, SyntaxContext::root(), "_", &mut app);
    assert_eq!("Vec::new()", text);
    assert!(is_macro);
    assert_eq!(Applicability::MachineApplicable, app);
    let mut app = Applicability::MachineApplicable;
    let (text, is_macro) = snippet_with_context(&sm, &h, sp(4, 9), m, "_", &mut app);
    assert_eq!("value", text);
    assert!(!is_macro);
    assert_eq!(Applicability::MaybeIncorrect, app);
}

#[test]
fn trimming_spans() {
    let sm = map_of("f(  x + 1 \n)");
    let t = trim_span(&sm, sp(2, 11));
    assert_eq!((4, 9), (t.lo().0, t.hi().0));
    let whole = trim_span(&sm, sp(30, 40));
    assert_eq!((30, 40), (whole.lo().0, whole.hi().0));
}

#[test]
fn presence_in_source() {
    let sm = map_of("#[derive(Debug)]");
    assert!(!is_present_in_source(&sm, sp(3, 3)));
    assert!(is_present_in_source(&sm, sp(2, 8)));
    assert!(is_present_in_source(&sm, sp(50, 51)));
}

#[test]
fn line_spans_and_indents() {
    let sm = map_of("fn f() {\n    let x = ();\n}");
    let h = HygieneData::new();
    let ls = line_span(&sm, &h, sp(21, 23)).unwrap();
    assert_eq!((9, 23), (ls.lo().0, ls.hi().0));
    assert_eq!(Some(4), indent_of(&sm, &h, sp(21, 23)));
    assert_eq!(Some(0), indent_of(&sm, &h, sp(3, 4)));
    assert_eq!(Some(String::from("    ")), snippet_indent(&sm, &h, sp(21, 23)));
    let first = first_line_of_span(&sm, &h, sp(21, 23));
    assert_eq!((13, 23), (first.lo().0, first.hi().0));
}

#[test]
fn blocks_are_reindented() {
    let sm = map_of("    if x {\n        y;\n    }");
    let h = HygieneData::new();
    let block = snippet_block(&sm, &h, sp(9, 27), "..", None);
    assert_eq!("{\n    y;\n}", block);
    let mut app = Applicability::MachineApplicable;
    let wrapped = expr_block(&sm, &h, sp(19, 21), false, SyntaxContext::root(), "..", None, &mut app);
    assert_eq!("{ y; }", wrapped);
    let plain = expr_block(&sm, &h, sp(9, 27), true, SyntaxContext::root(), "..", None, &mut app);
    assert_eq!("{\n    y;\n}", plain);
}

#[test]
fn char_literals_from_strings() {
    let sm = map_of("f(\"a\", r#\"'\"#, \"\\\"\", \"ab\")");
    let mut app = Applicability::MachineApplicable;
    assert_eq!(Some(String::from("'a'")), str_literal_to_char_literal(&sm, sp(2, 5), "a", None, &mut app, false));
    assert_eq!(Some(String::from("'\\''")), str_literal_to_char_literal(&sm, sp(7, 13), "'", Some(1), &mut app, false));
    assert_eq!(Some(String::from("'\"'")), str_literal_to_char_literal(&sm, sp(15, 19), "\"", None, &mut app, false));
    assert_eq!(None, str_literal_to_char_literal(&sm, sp(21, 25), "ab", None, &mut app, false));
    assert_eq!(Applicability::MachineApplicable, app);
}

#[test]
fn empty_else_is_needless() {
    let sm = map_of("if a { b } else { }");
    let d = check_needless_else(&sm, sp(0, 19), sp(5, 10), sp(16, 19)).unwrap();
    assert_eq!(Lint::NeedlessElse, d.lint);
    assert_eq!((11, 19), (d.span.lo().0, d.span.hi().0));
    assert_eq!("", d.suggestions[0].replacement);
    assert_eq!(Applicability::MachineApplicable, d.suggestions[0].applicability);
}

#[test]
fn commented_else_is_kept() {
    let sm = map_of("if a { b } else { /* keep */ }");
    assert!(check_needless_else(&sm, sp(0, 30), sp(5, 10), sp(16, 30)).is_none());
}

#[test]
fn span_text_access() {
    let sm = map_of("let a = 1;");
    let h = HygieneData::new();
    let s = sp(4, 5);
    assert_eq!(Some("a"), s.get_source_text(&sm).map(|t| t.as_str()));
    assert!(s.check_source_text(&sm, |t| t == "a"));
    assert!(!sp(40, 41).check_source_text(&sm, |_| true));
    assert_eq!(Some("a"), s.get_source_text_at_ctxt(&sm, &h, SyntaxContext::root()).map(|t| t.as_str()));
    let c = s.get_source_range(&sm).unwrap();
    assert_eq!(Some("a"), c.current_text());
}

#[test]
fn expand_over_previous_comma() {
    let sm = map_of("writeln!(o, \"\")");
    let s = expand_past_previous_comma(&sm, sp(12, 14));
    assert_eq!((10, 14), (s.lo().0, s.hi().0));
    let sm = map_of("f(a,b)");
    let s = expand_past_previous_comma(&sm, sp(4, 5));
    assert_eq!((3, 5), (s.lo().0, s.hi().0));
}

#[test]
fn map_range_moves_span_bounds() {
    let sm = map_of("if a { b } else { }");
    let s = Span::new(BytePos(16), BytePos(19), SyntaxContext(0), None);
    let r = s.map_range(&sm, |c| c.set_start_if_before(BytePos(10))).unwrap();
    assert_eq!((10, 19), (r.lo().0, r.hi().0));
    assert!(s.map_range(&sm, |c| c.set_start_if_before(BytePos(17))).is_none());
    assert!(sp(40, 41).map_range(&sm, |c| Some(c)).is_none());
}

#[test]
fn text_predicates() {
    use_predicates();
}

fn use_predicates() {
    assert!(clippy_source::text::is_open_brace_only("{\n    "));
    assert!(!clippy_source::text::is_open_brace_only("{ // c\n"));
    assert!(!clippy_source::text::is_open_brace_only(""));
    assert!(clippy_source::text::ends_with_comma("\"\","));
    assert!(!clippy_source::text::ends_with_comma("\"\""));
}
