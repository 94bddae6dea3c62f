use starlark_completion::dot::{is_ident_byte, scan_dot_context, DotContext};

fn member(root: &str) -> Option<DotContext> {
    Some(DotContext::Member {
        root: root.to_owned(),
    })
}

#[test]
fn test_scan_dot_context_member() {
    assert_eq!(scan_dot_context("x = yaml.", 9), member("yaml"));
    assert_eq!(scan_dot_context("x = yaml.du", 11), member("yaml"));
    assert_eq!(scan_dot_context("yaml.", 5), member("yaml"));
    assert_eq!(scan_dot_context("f(yaml.", 7), member("yaml"));
    // Cursor mid-word: everything right of the cursor is ignored.
    assert_eq!(scan_dot_context("x = yaml.dump", 10), member("yaml"));
}

#[test]
fn test_scan_dot_context_none() {
    assert_eq!(scan_dot_context("x = yaml", 8), None);
    assert_eq!(scan_dot_context("", 0), None);
    assert_eq!(scan_dot_context("x = ", 4), None);
    // Not an identifier root.
    assert_eq!(scan_dot_context("f().", 4), None);
    assert_eq!(scan_dot_context("\"s\".", 4), None);
    // Float literal, not member access.
    assert_eq!(scan_dot_context("x = 1.", 6), None);
    // Cursor beyond line end is clamped.
    assert_eq!(scan_dot_context("x", 5), None);
}

#[test]
fn test_scan_dot_context_suppressed() {
    // Chained access: recognised, deliberately not completed.
    assert_eq!(scan_dot_context("a.b.", 4), Some(DotContext::Suppress));
    // Comments.
    assert_eq!(scan_dot_context("# yaml.", 7), Some(DotContext::Suppress));
    assert_eq!(
        scan_dot_context("x = 1  # yaml.", 14),
        Some(DotContext::Suppress)
    );
}

#[test]
fn test_scan_dot_context_hash_inside_string_is_not_a_comment() {
    assert_eq!(scan_dot_context("x = \"#\" + yaml.", 15), member("yaml"));
}

#[test]
fn identifier_bytes_are_ascii_letters_digits_and_underscore() {
    for b in 0..=255u8 {
        assert_eq!(is_ident_byte(b), b.is_ascii_alphanumeric() || b == b'_');
    }
}

#[test]
fn right_of_cursor_makes_no_difference() {
    for rest in ["", "x", "du mp", ".z", "# c", "\u{e4}"] {
        let line = format!("x = yaml.{rest}");
        assert_eq!(scan_dot_context(&line, 9), member("yaml"));
    }
}

#[test]
fn cursor_beyond_the_end_is_at_the_end() {
    assert_eq!(scan_dot_context("yaml.", 500), member("yaml"));
    assert_eq!(scan_dot_context("yaml.", u32::MAX), member("yaml"));
}

#[test]
fn typing_the_member_name_keeps_the_context() {
    for column in 9..=13 {
        assert_eq!(scan_dot_context("x = yaml.dump", column), member("yaml"));
    }
    assert_eq!(scan_dot_context("x = yaml.dump", 8), None);
}

#[test]
fn roots_may_hold_digits_and_underscores() {
    assert_eq!(scan_dot_context("_a1.", 4), member("_a1"));
    assert_eq!(scan_dot_context("1a.", 3), None);
}

#[test]
fn text_beyond_ascii_ends_an_identifier() {
    // The first two bytes are one character.
    assert_eq!(scan_dot_context("\u{e4}yaml.", 7), member("yaml"));
    assert_eq!(scan_dot_context("\"\u{4e2d}\" + a.", 10), member("a"));
    assert_eq!(scan_dot_context("\u{e4}.", 3), None);
}

#[test]
fn quotes_of_the_other_kind_do_not_close_a_string() {
    assert_eq!(scan_dot_context("x = '\"#' + a.", 13), member("a"));
    assert_eq!(scan_dot_context("x = \"'\" # a.", 12), Some(DotContext::Suppress));
    assert_eq!(scan_dot_context("x = '#' # a.", 12), Some(DotContext::Suppress));
}

#[test]
fn chained_access_is_suppressed_however_long() {
    assert_eq!(scan_dot_context("a.b.c.d", 7), Some(DotContext::Suppress));
    assert_eq!(scan_dot_context("f().b.", 6), Some(DotContext::Suppress));
}
