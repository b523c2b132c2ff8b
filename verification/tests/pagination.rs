use book_reviews::pagination::{
    contains, find, last_page, page_link_base, page_param_removable_exec, paging,
    strip_page_param, CountInformation,
};
use book_reviews::text::to_chars;

/// The pagination as the web application's template helper wrote it, with
/// floating-point rounding of the page count.
fn reference_paging(uri: &str, page: i64, total: i64) -> String {
    let mut out = String::new();
    let mut uri = String::from(uri);
    let last_page = (total as f64 / 20 as f64).ceil() as i64;
    if let Some(mut f) = uri.find("page=") {
        f -= 1;
        loop {
            uri.remove(f);
            if uri.len() == f || uri.chars().nth(f).unwrap() == '&' {
                break;
            }
        }
    }
    if uri.contains("/?") || uri.contains("/search?") {
        uri.push_str("&page=");
    } else {
        uri.push_str("?page=");
    }
    out.push_str(
        format!(
            r###"
              <div class="col justify-content-end">
                <ul class="pagination justify-content-end">
                  <li class="page-item {2}">
                    <a class="page-link" href="{0}{1}">Previous</a>
                  </li>
                  <li class="page-item {3}"><a class="page-link" href="{0}1">1</a></li>
            "###,
            uri,
            page - 1,
            if page == 1 { "disabled" } else { "" },
            if page == 1 { "active" } else { "" }
        )
        .as_str(),
    );
    if last_page > 4 {
        if page < last_page / 2 {
            out.push_str(
                format!(
                    r###"
                  <li class="page-item {3}"><a class="page-link" href="{0}{1}">{1}</a></li>
                  <li class="page-item disabled"><a class="page-link">...</a></li>
                  <li class="page-item"><a class="page-link" href="{0}{2}">{2}</a></li>
                "###,
                    uri,
                    if page == 1 { page + 1 } else { page },
                    last_page,
                    if page != 1 { "active" } else { "" }
                )
                .as_str(),
            );
        } else {
            out.push_str(
                format!(
                    r###"
                  <li class="page-item disabled"><a class="page-link">...</a></li>
                  <li class="page-item {3}"><a class="page-link" href="{0}{1}">{1}</a></li>
                  <li class="page-item {4}"><a class="page-link" href="{0}{2}">{2}</a></li>
                "###,
                    uri,
                    if page == last_page { page - 1 } else { page },
                    last_page,
                    if page != last_page { "active" } else { "" },
                    if page == last_page { "active" } else { "" },
                )
                .as_str(),
            );
        }
    } else {
        let mut i = 2;
        while i <= last_page {
            out.push_str(
                format!(
                    r###"
                  <li class="page-item {2}"><a class="page-link" href="{0}{1}">{1}</a></li>
                "###,
                    uri,
                    i,
                    if page == i { "active" } else { "" }
                )
                .as_str(),
            );
            i += 1;
        }
    }
    out.push_str(
        format!(
            r###"
              <li class="page-item {1}">
                <a class="page-link" href="{0}{2}">Next</a>
              </li>
          "###,
            uri,
            if page == last_page { "disabled" } else { "" },
            page + 1
        )
        .as_str(),
    );
    out.push_str(
        r###"
            </ul>
          </div>
            "###,
    );
    out
}

#[test]
fn count_information_first_page() {
    let c = CountInformation::new(0, 5, None);
    assert_eq!((c.total, c.sindex, c.eindex, c.page), (5, 1, 5, 1));
}

#[test]
fn count_information_later_page() {
    let c = CountInformation::new(20, 100, Some(2));
    assert_eq!((c.total, c.sindex, c.eindex, c.page), (100, 21, 39, 2));
    let c = CountInformation::new(40, 45, Some(3));
    assert_eq!((c.total, c.sindex, c.eindex, c.page), (45, 41, 45, 3));
}

#[test]
fn last_page_rounds_up() {
    let cases = [(0i64, 0i64), (1, 1), (19, 1), (20, 1), (21, 2), (40, 2), (41, 3), (-1, 0), (-20, -1), (-21, -1), (-41, -2)];
    for (total, expected) in cases {
        assert_eq!(last_page(total), expected, "total {}", total);
        assert_eq!(last_page(total), (total as f64 / 20.0).ceil() as i64);
    }
}

#[test]
fn find_and_contains() {
    let s = to_chars("/search?a=1&page=2");
    assert_eq!(find(&s, &to_chars("page=")), Some(12));
    assert_eq!(find(&s, &to_chars("nope")), None);
    assert_eq!(find(&s, &to_chars("")), Some(0));
    assert!(contains(&s, &to_chars("/search?")));
    assert!(!contains(&s, &to_chars("/?")));
}

#[test]
fn strip_page_param_cases() {
    assert_eq!(strip_page_param("/?search=x&page=3"), "/?search=x");
    assert_eq!(strip_page_param("/?page=3&search=x"), "/&search=x");
    assert_eq!(strip_page_param("/search?s1v=title&page=12&s1=a"), "/search?s1v=title&s1=a");
    assert_eq!(strip_page_param("/?search=x"), "/?search=x");
    assert_eq!(strip_page_param("/homepage=1"), "/hom");
}

#[test]
fn strip_page_param_after_non_ascii_text() {
    assert_eq!(strip_page_param("/é?page=2&x"), "/é2&x");
    assert_eq!(strip_page_param("/é?x=1&page=22&y=3"), "/é?x=12&y=3");
    assert_eq!(strip_page_param("/é?search=ü&page=3&z=1"), "/é?search=ü=3&z=1");
}

#[test]
fn page_param_removable_cases() {
    assert!(page_param_removable_exec("/"));
    assert!(page_param_removable_exec("/?search=x&page=3"));
    assert!(page_param_removable_exec("/é?page=2&x"));
    assert!(!page_param_removable_exec("page=1"));
    assert!(!page_param_removable_exec("/xépage=1"));
    assert!(!page_param_removable_exec("/éé?page=1"));
}

#[test]
fn page_link_base_cases() {
    assert_eq!(page_link_base("/?search=x&page=3"), "/?search=x&page=");
    assert_eq!(page_link_base("/"), "/?page=");
    assert_eq!(page_link_base("/?page=2"), "/?page=");
    assert_eq!(page_link_base("/search?s1v=title&page=2"), "/search?s1v=title&page=");
    assert_eq!(page_link_base("/stats"), "/stats?page=");
}

#[test]
fn paging_matches_template_helper() {
    let uris = [
        "/",
        "/?search=king",
        "/?search=king&page=3",
        "/search?s1v=title&s1c=%3D&s1=a&page=2",
        "/?page=4&x=1",
        "/stats",
        "/é?page=2&x",
        "/é?x=1&page=22&y=3",
        "/search?s1=ü&page=5&x=1",
    ];
    let pages = [-3i64, 0, 1, 2, 3, 4, 5, 6, 9, 10, 11, 12];
    let totals = [0i64, 1, 19, 20, 21, 60, 80, 81, 100, 200, 1000, -5];
    for uri in uris {
        for page in pages {
            for total in totals {
                assert_eq!(
                    paging(uri, page, total),
                    reference_paging(uri, page, total),
                    "uri {} page {} total {}",
                    uri,
                    page,
                    total
                );
            }
        }
    }
}

#[test]
fn paging_first_of_three_pages() {
    let html = paging("/", 1, 45);
    assert!(html.contains(r#"<li class="page-item disabled">"#));
    assert!(html.contains(r#"href="/?page=0">Previous"#));
    assert!(html.contains(r#"<li class="page-item active"><a class="page-link" href="/?page=1">1</a></li>"#));
    assert!(html.contains(r#"<a class="page-link" href="/?page=2">2</a>"#));
    assert!(html.contains(r#"<a class="page-link" href="/?page=3">3</a>"#));
    assert!(!html.contains(r#"href="/?page=4">4"#));
    assert!(html.contains(r#"href="/?page=2">Next"#));
}
