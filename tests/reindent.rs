use clippy_source::reindent::{position_before_rarrow, reindent_multiline};

#[test]
fn test_reindent_multiline_single_line() {
    assert_eq!("", reindent_multiline("", false, None));
    assert_eq!("...", reindent_multiline("...", false, None));
    assert_eq!("...", reindent_multiline("    ...", false, None));
    assert_eq!("...", reindent_multiline("\t...", false, None));
    assert_eq!("...", reindent_multiline("\t\t...", false, None));
}

#[test]
fn test_reindent_multiline_block() {
    assert_eq!("\
    if x {
        y
    } else {
        z
    }", reindent_multiline("    if x {
            y
        } else {
            z
        }", false, None));
    assert_eq!("\
    if x {
    \ty
    } else {
    \tz
    }", reindent_multiline("    if x {
        \ty
        } else {
        \tz
        }", false, None));
}

#[test]
fn test_reindent_multiline_empty_line() {
    assert_eq!("\
    if x {
        y

    } else {
        z
    }", reindent_multiline("    if x {
            y

        } else {
            z
        }", false, None));
}

#[test]
fn test_reindent_multiline_lines_deeper() {
    assert_eq!("\
        if x {
            y
        } else {
            z
        }", reindent_multiline("\
    if x {
        y
    } else {
        z
    }", true, Some(8)));
}

#[test]
fn reindent_keeps_first_line_when_asked() {
    assert_eq!("a\n  b\n  c", reindent_multiline("a\n    b\n    c", true, Some(2)));
}

#[test]
fn reindent_drops_trailing_newline_and_carriage_returns() {
    assert_eq!("a\nb", reindent_multiline("  a\r\n  b\n", false, None));
}

#[test]
fn rarrow_in_formatted_signature() {
    assert_eq!(Some(13), position_before_rarrow("fn into(self) -> () {}"));
}

#[test]
fn rarrow_without_space() {
    assert_eq!(Some(14), position_before_rarrow("fn into2(self)-> () {}"));
}

#[test]
fn rarrow_after_several_spaces() {
    assert_eq!(Some(14), position_before_rarrow("fn into3(self)   -> () {}"));
}

#[test]
fn rarrow_absent() {
    assert_eq!(None, position_before_rarrow("fn f(self) {}"));
}
