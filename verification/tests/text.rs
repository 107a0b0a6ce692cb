use openworker_shell::text::{
    decimal_text, is_white_space, join_path, lines, parse_u32, split_path, trim, trim_end,
};

fn samples() -> Vec<&'static str> {
    vec![
        "",
        "\n",
        "\r\n",
        "a",
        "a\n",
        "a\r\n",
        "a\r",
        "a\nb",
        "a\r\nb\r",
        "\n\na\n\n",
        "a\r\r\nb\n",
        "  a b \t ",
        "\u{3000}wide\u{a0}",
        " \n\t ",
        "k=v\nplain\n",
        "a:b::c:",
        ":",
        "::",
        "one",
        "ünï:cödé\u{2028}",
    ]
}

#[test]
fn white_space_is_the_unicode_property() {
    for code in 0..=0x10ffffu32 {
        if let Some(c) = char::from_u32(code) {
            assert_eq!(is_white_space(c), c.is_whitespace(), "U+{code:04X}");
        }
    }
}

#[test]
fn trimming_cuts_white_space_only() {
    for s in samples() {
        assert_eq!(trim(s), s.trim());
        assert_eq!(trim_end(s), s.trim_end());
    }
    assert_eq!(trim_end(" x \r\n"), " x");
    assert_eq!(trim(" x \r\n"), "x");
}

#[test]
fn lines_end_in_line_feeds() {
    for s in samples() {
        let expected: Vec<&str> = s.lines().collect();
        assert_eq!(lines(s), expected, "{s:?}");
    }
    assert_eq!(lines("a\r\nb\rc\n\nd\r"), vec!["a", "b\rc", "", "d\r"]);
}

#[test]
fn printed_lines_are_read_back() {
    let printed = "first\n\n a=b \nlast\n";
    assert_eq!(lines(printed), vec!["first", "", " a=b ", "last"]);
}

#[test]
fn paths_are_split_without_empty_entries() {
    for s in samples() {
        let expected: Vec<&str> = s.split(':').filter(|e| !e.is_empty()).collect();
        assert_eq!(split_path(s), expected, "{s:?}");
    }
    assert_eq!(split_path("/usr/bin::/bin:"), vec!["/usr/bin", "/bin"]);
}

#[test]
fn joining_is_undone_by_splitting() {
    let entries: Vec<String> = vec!["/a".to_string(), "/b c".to_string(), "~".to_string()];
    let joined = join_path(&entries);
    assert_eq!(joined, "/a:/b c:~");
    assert_eq!(split_path(&joined), entries);
    assert_eq!(join_path(&Vec::new()), "");
    assert_eq!(join_path(&vec!["/a".to_string()]), "/a");
}

#[test]
fn numbers_are_written_in_decimal() {
    for n in [0u64, 7, 9, 10, 100, 8765, 65535, 4294967295, u64::MAX] {
        assert_eq!(decimal_text(n), n.to_string());
    }
}

#[test]
fn numbers_are_read_like_std_reads_them() {
    for s in [
        "", "+", "-", "0", "12", "+12", "-1", "007", " 1", "1 ", "1a", "4294967295", "4294967296",
        "99999999999999999999", "00000000000000000000012", "++1", "\u{0663}",
    ] {
        assert_eq!(parse_u32(s), s.parse::<u32>().ok(), "{s:?}");
    }
}
