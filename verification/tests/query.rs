use book_reviews::query::{
    as_query, books_query, count_query, extended_where_clause, simple_where_clause, start_limit,
    ExtendedSearch, Search, COUNT_PER_PAGE,
};

fn s(x: &str) -> Option<String> {
    Some(x.to_string())
}

fn empty_form() -> ExtendedSearch {
    ExtendedSearch {
        s1v: None,
        s1c: None,
        s1: None,
        s2s: None,
        s2v: None,
        s2c: None,
        s2: None,
        s3s: None,
        s3v: None,
        s3c: None,
        s3: None,
        page: None,
    }
}

#[test]
fn as_query_equals_uses_like() {
    assert_eq!(as_query(None, s("title"), s("="), s("Dune")), "title LIKE '%Dune%'");
}

#[test]
fn as_query_other_comparison_with_connective() {
    assert_eq!(as_query(s("AND"), s("score"), s(">"), s("3")), " ANDscore > '3'");
    assert_eq!(as_query(s("OR"), s("date"), s("<"), s("2020")), " ORdate < '2020'");
}

#[test]
fn simple_where_clause_with_and_without_text() {
    let q = Search { search: s("King"), page: Some(2) };
    assert_eq!(simple_where_clause(&q), "WHERE title LIKE '%King%' OR author LIKE '%King%'");
    let q = Search { search: None, page: None };
    assert_eq!(simple_where_clause(&q), "");
}

#[test]
fn has_value_and_completeness() {
    let mut f = empty_form();
    assert!(!f.has_value());
    assert!(f.is_complete());
    f.page = Some(3);
    assert!(!f.has_value());
    f.s3 = s("x");
    assert!(f.has_value());
    let mut g = empty_form();
    g.s1v = s("title");
    assert!(g.has_value());
    assert!(!g.is_complete());
    g.s1c = s("=");
    g.s1 = s("Dune");
    assert!(g.is_complete());
    g.s2s = s("");
    assert!(g.is_complete());
    g.s2s = s("AND");
    assert!(!g.is_complete());
}

#[test]
fn extended_where_clause_three_conditions() {
    let mut f = empty_form();
    f.s1v = s("title");
    f.s1c = s("=");
    f.s1 = s("Dune");
    f.s2s = s("AND");
    f.s2v = s("score");
    f.s2c = s(">");
    f.s2 = s("3");
    f.s3s = s("NOT");
    f.s3v = s("author");
    f.s3c = s("=");
    f.s3 = s("Herbert");
    assert_eq!(
        extended_where_clause(f),
        "WHERE title LIKE '%Dune%' ANDscore > '3' NOTauthor LIKE '%Herbert%'"
    );
}

#[test]
fn extended_where_clause_skips_empty_connectives() {
    let mut f = empty_form();
    f.s2s = s("");
    f.s2v = s("score");
    f.s3s = s("OR");
    f.s3v = s("date");
    f.s3c = s("<");
    f.s3 = s("2019");
    assert_eq!(extended_where_clause(f), "WHERE  ORdate < '2019'");
}

#[test]
fn start_limit_of_pages() {
    assert_eq!(start_limit(None), 0);
    assert_eq!(start_limit(Some(1)), 0);
    assert_eq!(start_limit(Some(3)), 40);
    assert_eq!(start_limit(Some(0)), -20);
    assert_eq!(COUNT_PER_PAGE, 20);
}

#[test]
fn books_query_text() {
    let expected = format!(
        "
    WITH ranked_books AS (
      SELECT *, RANK () OVER (
        ORDER BY score DESC
      ) rank FROM merged_books_aggregated_updated_finished
    )
    SELECT * FROM ranked_books
    {}
    ORDER BY score DESC LIMIT {}, {}
  ",
        "WHERE x", 40, 20
    );
    assert_eq!(books_query("WHERE x", 40), expected);
}

#[test]
fn count_query_text() {
    let expected = format!(
        "
      SELECT COUNT(*) as count FROM merged_books_aggregated_updated_finished
      {}
      ORDER BY score DESC
    ",
        ""
    );
    assert_eq!(count_query(""), expected);
}
