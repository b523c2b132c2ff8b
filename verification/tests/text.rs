use book_reviews::text::{chars_equal, decimal, first_line, str_equals, string_of_range, to_chars};

#[test]
fn first_line_cuts_at_first_newline() {
    assert_eq!(first_line("The Title\nSubtitle\nMore"), "The Title");
}

#[test]
fn first_line_without_newline_is_whole_text() {
    assert_eq!(first_line("Just one line"), "Just one line");
}

#[test]
fn first_line_of_empty_and_leading_newline() {
    assert_eq!(first_line(""), "");
    assert_eq!(first_line("\nsecond"), "");
}

#[test]
fn first_line_matches_split_take_one() {
    for s in ["a\nb", "\n", "x", "", "ä\nö", "multi\n\nlines\n"] {
        let expected: String = s.split('\n').take(1).collect();
        assert_eq!(first_line(s), expected);
    }
}

#[test]
fn decimal_renders_like_display() {
    for n in [0i64, 7, 10, 19, 20, 1234567, -1, -20, -987, i64::MAX, i64::MIN] {
        assert_eq!(decimal(n), n.to_string());
    }
}

#[test]
fn chars_and_ranges() {
    let cs = to_chars("héllo");
    assert_eq!(cs, vec!['h', 'é', 'l', 'l', 'o']);
    assert_eq!(string_of_range(&cs, 1, 4), "éll");
    assert!(chars_equal(&cs, &to_chars("héllo")));
    assert!(!chars_equal(&cs, &to_chars("hello")));
    assert!(str_equals("=", "="));
    assert!(!str_equals("<", "="));
    assert!(!str_equals("==", "="));
}
