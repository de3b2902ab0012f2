use robusto::strings::{
    append_indent_or_panic, append_line_with_indent_or_panic, append_with_indent_or_panic,
};

#[test]
fn indent_appends_four_spaces_per_level() {
    let mut out = String::from("x");
    append_indent_or_panic(&mut out, 0);
    assert_eq!(out, "x");
    append_indent_or_panic(&mut out, 2);
    assert_eq!(out, "x        ");
}

#[test]
fn line_append_adds_indent_and_newline() {
    let mut out = String::new();
    append_line_with_indent_or_panic(&mut out, 1, "write data;");
    assert_eq!(out, "    write data;\n");
}

#[test]
fn multi_line_snippet_is_reindented() {
    let mut out = String::new();
    append_with_indent_or_panic(&mut out, 1, "first\nsecond\nthird");
    assert_eq!(out, "    first\n    second\n    third");
}

#[test]
fn newline_runs_keep_one_reindent() {
    let mut out = String::new();
    append_with_indent_or_panic(&mut out, 1, "a\r\n\r\nb");
    assert_eq!(out, "    a\r\n\r\n    b");
}

#[test]
fn trailing_newline_gets_no_indent_after_it() {
    let mut out = String::new();
    append_with_indent_or_panic(&mut out, 1, "x\n");
    assert_eq!(out, "    x\n");
}

#[test]
fn empty_snippet_appends_only_the_indent() {
    let mut out = String::new();
    append_with_indent_or_panic(&mut out, 2, "");
    assert_eq!(out, "        ");
}

#[test]
fn single_line_snippet_is_indented_once() {
    let mut out = String::from("begin:");
    append_with_indent_or_panic(&mut out, 1, "payload");
    assert_eq!(out, "begin:    payload");
}
