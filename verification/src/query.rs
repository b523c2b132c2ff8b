//! Search requests and the SQL text that answers them.
use vstd::prelude::*;
use crate::text::{decimal, spec_decimal, str_equals};

verus! {

broadcast use vstd::string::group_string_axioms;

/// How many books one result page shows.
pub const COUNT_PER_PAGE: i64 = 20;

/// The simple search form: an optional text searched in titles and authors,
/// and an optional page number.
#[derive(Debug, Clone)]
pub struct Search {
    pub search: Option<String>,
    pub page: Option<i64>,
}

/// The extended search form: up to three conditions, each with a logical
/// connective (`s2s`, `s3s`), a column (`s1v`, ...), a comparison (`s1c`, ...)
/// and a value (`s1`, ...), and an optional page number.
#[derive(Debug, Clone)]
pub struct ExtendedSearch {
    pub s1v: Option<String>,
    pub s1c: Option<String>,
    pub s1: Option<String>,
    pub s2s: Option<String>,
    pub s2v: Option<String>,
    pub s2c: Option<String>,
    pub s2: Option<String>,
    pub s3s: Option<String>,
    pub s3v: Option<String>,
    pub s3c: Option<String>,
    pub s3: Option<String>,
    pub page: Option<i64>,
}

/// The second condition is asked for: its connective is given and not empty.
pub open spec fn second_active(q: &ExtendedSearch) -> bool {
    q.s2s is Some && q.s2s->0@.len() > 0
}

/// The third condition is asked for: its connective is given and not empty.
pub open spec fn third_active(q: &ExtendedSearch) -> bool {
    q.s3s is Some && q.s3s->0@.len() > 0
}

impl ExtendedSearch {
    /// Some field of the form other than the page is filled in.
    pub open spec fn spec_has_value(&self) -> bool {
        ||| self.s1v is Some
        ||| self.s1c is Some
        ||| self.s1 is Some
        ||| self.s2s is Some
        ||| self.s2v is Some
        ||| self.s2c is Some
        ||| self.s2 is Some
        ||| self.s3s is Some
        ||| self.s3v is Some
        ||| self.s3c is Some
        ||| self.s3 is Some
    }

    /// Every condition that is asked for has its column, comparison and value.
    pub open spec fn spec_is_complete(&self) -> bool {
        &&& self.s1v is Some ==> self.s1c is Some && self.s1 is Some
        &&& second_active(self) ==> self.s2v is Some && self.s2c is Some && self.s2 is Some
        &&& third_active(self) ==> self.s3v is Some && self.s3c is Some && self.s3 is Some
    }

    /// Whether some field of the form other than the page is filled in.
    pub fn has_value(&self) -> (res: bool)
        ensures
            res == self.spec_has_value(),
    {
        self.s1v.is_some() || self.s1c.is_some() || self.s1.is_some() || self.s2s.is_some()
            || self.s2v.is_some() || self.s2c.is_some() || self.s2.is_some()
            || self.s3s.is_some() || self.s3v.is_some() || self.s3c.is_some()
            || self.s3.is_some()
    }

    /// Whether every condition that is asked for has its column, comparison
    /// and value, so that its SQL text can be built.
    pub fn is_complete(&self) -> (res: bool)
        ensures
            res == self.spec_is_complete(),
    {
        let first = self.s1v.is_none() || (self.s1c.is_some() && self.s1.is_some());
        let second = !connective_given(&self.s2s) || (self.s2v.is_some() && self.s2c.is_some()
            && self.s2.is_some());
        let third = !connective_given(&self.s3s) || (self.s3v.is_some() && self.s3c.is_some()
            && self.s3.is_some());
        first && second && third
    }
}

/// Whether a connective is given and not empty.
fn connective_given(s: &Option<String>) -> (res: bool)
    ensures
        res == (s is Some && s->0@.len() > 0),
{
    match s {
        Some(t) => !t.as_str().is_empty(),
        None => false,
    }
}

/// The SQL condition for one search field: an optional connective, then
/// `lhs LIKE '%rhs%'` when the comparison is `=`, else `lhs c 'rhs'`.
pub open spec fn spec_as_query(
    con: Option<Seq<char>>,
    lhs: Seq<char>,
    c: Seq<char>,
    rhs: Seq<char>,
) -> Seq<char> {
    let prefix = match con {
        Some(s) => " "@ + s,
        None => Seq::empty(),
    };
    if c == "="@ {
        prefix + lhs + " LIKE '%"@ + rhs + "%'"@
    } else {
        prefix + lhs + " "@ + c + " '"@ + rhs + "'"@
    }
}

/// The SQL condition for one search field.
pub fn as_query(con: Option<String>, lhs: Option<String>, c: Option<String>, rhs: Option<String>) -> (res: String)
    requires
        lhs is Some,
        c is Some,
        rhs is Some,
    ensures
        res@ == spec_as_query(con.deep_view(), lhs->0@, c->0@, rhs->0@),
{
    let mut res = String::new();
    if let Some(s) = con {
        res.append(" ");
        res.append(s.as_str());
    }
    let comparision = c.unwrap();
    let lhs = lhs.unwrap();
    let rhs = rhs.unwrap();
    if str_equals(comparision.as_str(), "=") {
        res.append(lhs.as_str());
        res.append(" LIKE '%");
        res.append(rhs.as_str());
        res.append("%'");
    } else {
        res.append(lhs.as_str());
        res.append(" ");
        res.append(comparision.as_str());
        res.append(" '");
        res.append(rhs.as_str());
        res.append("'");
    }
    res
}

/// The WHERE clause of the simple search: the text is searched in titles
/// and authors; without a text every book matches.
pub open spec fn spec_simple_where_clause(search: Option<Seq<char>>) -> Seq<char> {
    match search {
        Some(s) => "WHERE title LIKE '%"@ + s + "%' OR author LIKE '%"@ + s + "%'"@,
        None => Seq::empty(),
    }
}

/// The WHERE clause of the simple search.
pub fn simple_where_clause(query: &Search) -> (res: String)
    ensures
        res@ == spec_simple_where_clause(query.search.deep_view()),
{
    let mut res = String::new();
    match &query.search {
        Some(s) => {
            res.append("WHERE title LIKE '%");
            res.append(s.as_str());
            res.append("%' OR author LIKE '%");
            res.append(s.as_str());
            res.append("%'");
        },
        None => {},
    }
    res
}

/// The WHERE clause of the extended search: `WHERE `, then the first
/// condition if its column is given, then the second and third if their
/// connectives are given and not empty.
pub open spec fn spec_extended_where_clause(q: &ExtendedSearch) -> Seq<char> {
    let first = if q.s1v is Some {
        spec_as_query(None, q.s1v->0@, q.s1c->0@, q.s1->0@)
    } else {
        Seq::empty()
    };
    let second = if second_active(q) {
        spec_as_query(Some(q.s2s->0@), q.s2v->0@, q.s2c->0@, q.s2->0@)
    } else {
        Seq::empty()
    };
    let third = if third_active(q) {
        spec_as_query(Some(q.s3s->0@), q.s3v->0@, q.s3c->0@, q.s3->0@)
    } else {
        Seq::empty()
    };
    "WHERE "@ + first + second + third
}

/// The WHERE clause of the extended search.
pub fn extended_where_clause(query: ExtendedSearch) -> (res: String)
    requires
        query.spec_is_complete(),
    ensures
        res@ == spec_extended_where_clause(&query),
{
    let ghost q = query;
    let second = connective_given(&query.s2s);
    let third = connective_given(&query.s3s);
    let ExtendedSearch { s1v, s1c, s1, s2s, s2v, s2c, s2, s3s, s3v, s3c, s3, page: _ } = query;
    let mut where_query = String::from_str("WHERE ");
    if s1v.is_some() {
        let part = as_query(None, s1v, s1c, s1);
        where_query.append(part.as_str());
    }
    if second {
        let part = as_query(s2s, s2v, s2c, s2);
        where_query.append(part.as_str());
    }
    if third {
        let part = as_query(s3s, s3v, s3c, s3);
        where_query.append(part.as_str());
    }
    proof {
        let first = if q.s1v is Some {
            spec_as_query(None, q.s1v->0@, q.s1c->0@, q.s1->0@)
        } else {
            Seq::empty()
        };
        let sec = if second_active(&q) {
            spec_as_query(Some(q.s2s->0@), q.s2v->0@, q.s2c->0@, q.s2->0@)
        } else {
            Seq::empty()
        };
        let thi = if third_active(&q) {
            spec_as_query(Some(q.s3s->0@), q.s3v->0@, q.s3c->0@, q.s3->0@)
        } else {
            Seq::empty()
        };
        assert(where_query@ =~= "WHERE "@ + first + sec + thi);
    }
    where_query
}

/// The number of books that come before the first one of the page.
pub open spec fn spec_start_limit(page: Option<i64>) -> int {
    match page {
        Some(p) => (p - 1) * COUNT_PER_PAGE,
        None => 0,
    }
}

/// The number of books that come before the first one of the page: pages
/// count from 1, and no page given means the first.
pub fn start_limit(page: Option<i64>) -> (res: i64)
    requires
        i64::MIN <= spec_start_limit(page) <= i64::MAX,
    ensures
        res == spec_start_limit(page),
{
    match page {
        Some(p) => (p - 1) * COUNT_PER_PAGE,
        None => 0,
    }
}

/// The query for one page of books, ranked by score, under a WHERE clause.
pub open spec fn spec_books_query(where_query: Seq<char>, start_limit: int) -> Seq<char> {
    "\n    WITH ranked_books AS (\n      SELECT *, RANK () OVER (\n        ORDER BY score DESC\n      ) rank FROM merged_books_aggregated_updated_finished\n    )\n    SELECT * FROM ranked_books\n    "@
        + where_query + "\n    ORDER BY score DESC LIMIT "@ + spec_decimal(start_limit) + ", "@
        + spec_decimal(COUNT_PER_PAGE as int) + "\n  "@
}

/// The query for one page of books, ranked by score, under a WHERE clause.
pub fn books_query(where_query: &str, start_limit: i64) -> (res: String)
    ensures
        res@ == spec_books_query(where_query@, start_limit as int),
{
    let mut res = String::from_str(
        "\n    WITH ranked_books AS (\n      SELECT *, RANK () OVER (\n        ORDER BY score DESC\n      ) rank FROM merged_books_aggregated_updated_finished\n    )\n    SELECT * FROM ranked_books\n    ",
    );
    res.append(where_query);
    res.append("\n    ORDER BY score DESC LIMIT ");
    let start = decimal(start_limit);
    res.append(start.as_str());
    res.append(", ");
    let per_page = decimal(COUNT_PER_PAGE);
    res.append(per_page.as_str());
    res.append("\n  ");
    res
}

/// The query that counts the books under a WHERE clause.
pub open spec fn spec_count_query(where_query: Seq<char>) -> Seq<char> {
    "\n      SELECT COUNT(*) as count FROM merged_books_aggregated_updated_finished\n      "@
        + where_query + "\n      ORDER BY score DESC\n    "@
}

/// The query that counts the books under a WHERE clause.
pub fn count_query(where_query: &str) -> (res: String)
    ensures
        res@ == spec_count_query(where_query@),
{
    let mut res = String::from_str(
        "\n      SELECT COUNT(*) as count FROM merged_books_aggregated_updated_finished\n      ",
    );
    res.append(where_query);
    res.append("\n      ORDER BY score DESC\n    ");
    res
}

} // verus!
