use book_reviews::pagination::{last_page, strip_page_param, CountInformation};
use book_reviews::query::{books_query, start_limit};
use book_reviews::text::{decimal, first_line};

#[test]
fn page_window_on_page_three() {
    let skipped = start_limit(Some(3));
    assert_eq!(skipped, 40);
    let info = CountInformation::new(skipped, 1000, Some(3));
    assert_eq!(info.sindex, 41);
    assert_eq!(info.eindex, 59);
    assert!(info.eindex - info.sindex + 1 < 20);
    assert!(books_query("", skipped).contains("LIMIT 40, 20"));
}

#[test]
fn last_page_holds_between_one_and_twenty() {
    for total in [1i64, 5, 20, 21, 39, 40, 41, 999, 1000] {
        let last = last_page(total);
        assert!((last - 1) * 20 < total && total <= last * 20);
    }
}

#[test]
fn first_line_is_idempotent_prefix() {
    for s in ["a\nb\nc", "plain", "", "\n"] {
        let f = first_line(s);
        assert!(s.starts_with(f.as_str()));
        assert!(!f.contains('\n'));
        assert_eq!(first_line(f.as_str()), f);
    }
}

#[test]
fn decimal_reads_back() {
    for n in [0i64, 9, 10, -10, 123456789, i64::MIN, i64::MAX] {
        assert_eq!(decimal(n).parse::<i64>().unwrap(), n);
    }
}

#[test]
fn strip_leaves_uri_without_page_param() {
    assert_eq!(strip_page_param("/search?s1v=x"), "/search?s1v=x");
    let long = "/?a=1&page=2";
    assert!(strip_page_param(long).len() + 6 <= long.len());
}
