use clippy_source::diagnostic::{snippet_applicability, Applicability, Lint};
use clippy_source::file_range::ends_with_line_comment_or_broken;
use clippy_source::formatting::{
    check_assign, check_else, check_else_formatting, check_missing_comma, check_missing_else,
    check_un_op,
};
use clippy_source::formatting::check_else_tokens;
use clippy_source::hygiene::HygieneData;
use clippy_source::lexer::{LexKind, LitKind};
use clippy_source::source_map::SourceMap;
use clippy_source::span::{BytePos, Span, SpanData, SyntaxContext};

fn map_of(text: &str) -> SourceMap {
    let mut sm = SourceMap::new();
    assert_eq!(Some(0), sm.add_file(String::from("main.rs"), String::from(text)));
    sm
}

fn data(lo: u32, hi: u32, ctxt: SyntaxContext) -> SpanData {
    SpanData { lo: BytePos(lo), hi: BytePos(hi), ctxt, parent: None }
}

fn bounds(s: Span) -> (u32, u32) {
    (s.lo().0, s.hi().0)
}

#[test]
fn assignment_offers_both_rewrites() {
    let sm = map_of("a =- 1;");
    let h = HygieneData::new();
    let root = SyntaxContext::root();
    let d = check_assign(&sm, &h, data(0, 6, root), root, data(2, 3, root), "-").unwrap();
    assert_eq!(Lint::SuspiciousAssignmentFormatting, d.lint);
    assert_eq!((2, 4), bounds(d.span));
    assert_eq!(2, d.suggestions.len());
    assert_eq!("-=", d.suggestions[0].replacement);
    assert_eq!((2, 4), bounds(d.suggestions[0].span));
    assert_eq!(Applicability::MaybeIncorrect, d.suggestions[0].applicability);
    assert_eq!("= -", d.suggestions[1].replacement);
    assert_eq!((2, 5), bounds(d.suggestions[1].span));
    assert_eq!(Applicability::MaybeIncorrect, d.suggestions[1].applicability);
}

#[test]
fn assignment_with_space_is_fine() {
    let sm = map_of("a = -1;");
    let h = HygieneData::new();
    let root = SyntaxContext::root();
    assert!(check_assign(&sm, &h, data(0, 6, root), root, data(2, 3, root), "-").is_none());
}

#[test]
fn unary_op_in_user_code_is_machine_applicable() {
    let sm = map_of("a &&! b");
    let h = HygieneData::new();
    let root = SyntaxContext::root();
    let d = check_un_op(&sm, &h, root, data(2, 4, root), "&&", data(4, 7, root), "!").unwrap();
    assert_eq!((2, 5), bounds(d.span));
    assert_eq!("&& !", d.suggestions[0].replacement);
    assert_eq!((2, 6), bounds(d.suggestions[0].span));
    assert_eq!(Applicability::MachineApplicable, d.suggestions[0].applicability);
}

#[test]
fn unary_op_from_local_macro_is_downgraded() {
    let sm = map_of("a &&! b");
    let mut h = HygieneData::new();
    let ctxt = h.add_expansion(data(0, 0, SyntaxContext::root()), false).unwrap();
    let d = check_un_op(&sm, &h, ctxt, data(2, 4, ctxt), "&&", data(4, 7, ctxt), "!").unwrap();
    assert_eq!(Applicability::MaybeIncorrect, d.suggestions[0].applicability);
}

#[test]
fn external_macro_gets_no_suggestion() {
    let sm = map_of("a &&! b; x =- 1;");
    let mut h = HygieneData::new();
    let ext = h.add_expansion(data(0, 0, SyntaxContext::root()), true).unwrap();
    assert!(h.in_external_macro(ext));
    assert!(check_un_op(&sm, &h, ext, data(2, 4, ext), "&&", data(4, 7, ext), "!").is_none());
    assert!(check_assign(&sm, &h, data(9, 15, ext), ext, data(11, 12, ext), "-").is_none());
}

#[test]
fn missing_else_on_same_line() {
    let sm = map_of("if foo {\n} {\n}");
    let root = SyntaxContext::root();
    let d = check_missing_else(&sm, root, data(0, 10, root), data(11, 14, root)).unwrap();
    assert_eq!(Lint::PossibleMissingElse, d.lint);
    assert_eq!((10, 11), bounds(d.span));
    assert_eq!(" else ", d.suggestions[0].replacement);
    assert_eq!("\n", d.suggestions[1].replacement);
}

#[test]
fn missing_else_keeps_indent() {
    let sm = map_of("fn f() {\n    if a {\n    } {}\n}");
    let root = SyntaxContext::root();
    let d = check_missing_else(&sm, root, data(13, 25, root), data(26, 28, root)).unwrap();
    assert_eq!("\n    ", d.suggestions[1].replacement);
}

#[test]
fn missing_else_not_flagged_across_lines() {
    let sm = map_of("if foo {\n}\n{\n}");
    let root = SyntaxContext::root();
    assert!(check_missing_else(&sm, root, data(0, 10, root), data(11, 14, root)).is_none());
}

#[test]
fn blank_line_before_else_is_suspicious() {
    let sm = map_of("if foo {\n}\n\nelse {\n}");
    let h = HygieneData::new();
    let root = SyntaxContext::root();
    let d = check_else(&sm, &h, root, data(7, 10, root), data(17, 20, root), true).unwrap();
    assert_eq!(Lint::SuspiciousElseFormatting, d.lint);
    assert_eq!((10, 17), bounds(d.span));
    assert_eq!("this is an `else {..}` but the formatting might hide it", d.message);
    assert!(d.note.is_some());
}

#[test]
fn plain_else_is_fine() {
    let sm = map_of("if foo {\n} else {\n}");
    let h = HygieneData::new();
    let root = SyntaxContext::root();
    assert!(check_else(&sm, &h, root, data(7, 10, root), data(16, 19, root), true).is_none());
}

#[test]
fn else_formatting_cases() {
    assert!(!check_else_formatting(" else ", true));
    assert!(check_else_formatting("\n\nelse ", true));
    assert!(check_else_formatting(" else\n\n", true));
    assert!(check_else_formatting(" else\n", true));
    assert!(!check_else_formatting("\nelse\n", true));
    assert!(check_else_formatting("\nelse\n", false));
    assert!(!check_else_formatting(" /* c */\nelse ", true));
    assert!(check_else_formatting("\n/* c */ else ", true));
    assert!(check_else_formatting(" else // c\n", true));
    assert!(!check_else_formatting(" x ", true));
    assert!(!check_else_formatting("", true));
}

#[test]
fn line_comment_detection() {
    assert!(ends_with_line_comment_or_broken("( // Some comment"));
    assert!(ends_with_line_comment_or_broken("x /* open"));
    assert!(!ends_with_line_comment_or_broken("x /* closed */"));
    assert!(ends_with_line_comment_or_broken("let c = b'a"));
    assert!(ends_with_line_comment_or_broken("let s = r#\"abc"));
    assert!(!ends_with_line_comment_or_broken("let s = \"abc"));
    assert!(!ends_with_line_comment_or_broken("foo("));
    assert!(!ends_with_line_comment_or_broken(""));
}

#[test]
fn missing_comma_in_array() {
    let sm = map_of("[a -b]");
    let h = HygieneData::new();
    let root = SyntaxContext::root();
    let lhs = Span::new(BytePos(1), BytePos(2), root, None);
    let d = check_missing_comma(&sm, &h, root, data(1, 5, root), data(3, 4, root), "-", lhs).unwrap();
    assert_eq!(Lint::PossibleMissingComma, d.lint);
    assert_eq!((3, 4), bounds(d.span));
    assert_eq!(",", d.suggestions[0].replacement);
    assert_eq!((2, 2), bounds(d.suggestions[0].span));
    assert_eq!(" ", d.suggestions[1].replacement);
    assert_eq!((4, 4), bounds(d.suggestions[1].span));
}

#[test]
fn spaced_binary_operator_is_fine() {
    let sm = map_of("[a - b, a-b, a /b, c +d]");
    let h = HygieneData::new();
    let root = SyntaxContext::root();
    let lhs = Span::new(BytePos(1), BytePos(2), root, None);
    assert!(check_missing_comma(&sm, &h, root, data(1, 6, root), data(3, 4, root), "-", lhs).is_none());
    let lhs = Span::new(BytePos(8), BytePos(9), root, None);
    assert!(check_missing_comma(&sm, &h, root, data(8, 11, root), data(9, 10, root), "-", lhs).is_none());
    let lhs = Span::new(BytePos(20), BytePos(21), root, None);
    assert!(check_missing_comma(&sm, &h, root, data(20, 23, root), data(22, 23, root), "+", lhs).is_none());
}

#[test]
fn applicability_rules() {
    assert_eq!(Applicability::MaybeIncorrect, snippet_applicability(Applicability::MachineApplicable, true, true));
    assert_eq!(Applicability::Unspecified, snippet_applicability(Applicability::Unspecified, true, false));
    assert_eq!(Applicability::HasPlaceholders, snippet_applicability(Applicability::MachineApplicable, false, false));
    assert_eq!(Applicability::MachineApplicable, snippet_applicability(Applicability::MachineApplicable, false, true));
    assert_eq!(Applicability::MaybeIncorrect, snippet_applicability(Applicability::MachineApplicable, true, false));
}

#[test]
fn else_formatting_on_given_tokens() {
    let blank_line = [(LexKind::Whitespace, "\n\n"), (LexKind::Ident, "else"), (LexKind::Whitespace, " ")];
    assert!(check_else_tokens(&blank_line, true));
    let plain = [(LexKind::Whitespace, " "), (LexKind::Ident, "else"), (LexKind::Whitespace, " ")];
    assert!(!check_else_tokens(&plain, true));
    let comment_first = [
        (LexKind::Whitespace, "\n"),
        (LexKind::BlockComment { terminated: true }, "/* c */"),
        (LexKind::Whitespace, " "),
        (LexKind::Ident, "else"),
    ];
    assert!(check_else_tokens(&comment_first, true));
    let not_else = [(LexKind::Whitespace, " "), (LexKind::Ident, "elsewhere")];
    assert!(!check_else_tokens(&not_else, true));
    let literal = [(LexKind::Literal { kind: LitKind::Str { terminated: true }, suffix_start: 2 }, "\"\"")];
    assert!(!check_else_tokens(&literal, true));
    assert!(!check_else_tokens(&[], true));
}
