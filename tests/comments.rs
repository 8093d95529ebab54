use cooklang::remove_comment;

fn strip(s: &str) -> String {
    remove_comment(s).unwrap()
}

#[test]
fn test_block_comment() {
    assert_eq!(strip("[- foo bar-]"), "");
    assert_eq!(strip("[-foo-] bar"), " bar");
}

#[test]
fn test_line_comment() {
    assert_eq!(strip("--foo\n bar"), "\n bar");
    assert_eq!(strip("-- foo bar"), "");
}

#[test]
fn test_comment() {
    assert_eq!(strip("--foo\n bar"), "\n bar");
    assert_eq!(strip("-- foo bar"), "");
    assert_eq!(strip("[- foo bar-]"), "");
    assert_eq!(strip("[-foo-] bar"), " bar");
    assert_eq!(strip("[-foo-] bar"), " bar");
    assert_eq!(strip("[- -- foo-] bar"), " bar");
    assert_eq!(strip("-- [- -- foo\n-] bar"), "\n-] bar");
}

#[test]
fn test_remove_comment() {
    assert_eq!(
        remove_comment("--foo\n bar").unwrap_or_default(),
        String::from("\n bar")
    );
    assert_eq!(
        remove_comment("fo--foo\n bar").unwrap_or_default(),
        String::from("fo\n bar")
    );
    assert_eq!(
        remove_comment("fo[-bar-]o").unwrap_or_default(),
        String::from("foo")
    );
}

#[test]
fn unterminated_block_comment_is_text() {
    assert_eq!(strip("a [- b"), "a [- b");
    assert_eq!(strip("x [-] y"), "x [-] y");
    assert_eq!(strip("[--x\ny"), "[\ny");
}

#[test]
fn empty_input() {
    assert_eq!(strip(""), "");
}

#[test]
fn comment_free_text_is_kept_and_stable() {
    for x in ["Add a bit of chilli", "a - b [ c ] -x", "émincer 🧂\n\tpuis"] {
        let once = strip(x);
        assert_eq!(once, x);
        assert_eq!(strip(&once), once);
    }
}

#[test]
fn block_comment_ends_at_first_close() {
    assert_eq!(strip("a[- x -] b -] c"), "a b -] c");
}

#[test]
fn trim_spaces_removes_unicode_whitespace_at_both_ends() {
    assert_eq!(cooklang::trim_spaces("  a b \t\n"), "a b");
    assert_eq!(cooklang::trim_spaces("\u{a0}\u{3000}x\u{2029}"), "x");
    assert_eq!(cooklang::trim_spaces(" \n "), "");
}
