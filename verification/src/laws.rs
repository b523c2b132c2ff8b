//! Properties that hold across the library's functions.
use vstd::prelude::*;
use crate::models::{formatted, BookLabels};
use crate::pagination::{
    spec_page_link_base,
    extra_bytes, next_amp, page_param_removable, page_pattern, spec_count_information,
    spec_find, spec_last_page, spec_strip_page_param, strip_end, strip_end_of,
};
use crate::models::spec_first_line_of;
use crate::query::{
    spec_as_query, spec_books_query, spec_count_query, spec_extended_where_clause,
    spec_simple_where_clause, spec_start_limit, ExtendedSearch, COUNT_PER_PAGE,
};
use crate::text::{
    has_no_newline, lemma_line_end_bounds, lemma_line_end_characterized, line_end,
    spec_decimal, spec_digits, spec_first_line,
};

verus! {

/// Page `p` (counting from 1) skips `(p - 1) * COUNT_PER_PAGE` books, and
/// announces the positions `(p - 1) * COUNT_PER_PAGE + 1` to
/// `min(p * COUNT_PER_PAGE - 1, count)`: the first position announced is the
/// first book that the query returns.
///
/// The last position announced is one short of what the page shows: the
/// books query returns up to `COUNT_PER_PAGE` books, but the page announces
/// at most `COUNT_PER_PAGE - 1` positions. This is how the application has
/// always counted, and it is kept.
pub proof fn law_page_window(p: i64, count: i64)
    requires
        p >= 1,
        p * COUNT_PER_PAGE <= i64::MAX,
    ensures
        ({
            let skipped = spec_start_limit(Some(p));
            let info = spec_count_information(skipped, count as int, Some(p));
            &&& skipped == (p - 1) * COUNT_PER_PAGE
            &&& info.0 == count
            &&& info.1 == skipped + 1
            &&& info.2 == if p * COUNT_PER_PAGE - 1 <= count {
                p * COUNT_PER_PAGE - 1
            } else {
                count as int
            }
            &&& info.3 == p
            &&& info.2 - info.1 + 1 < COUNT_PER_PAGE
        }),
{
    assert((p - 1) * 20 == p * 20 - 20);
}

/// The number of pages is the number of books divided by
/// `COUNT_PER_PAGE`, rounded up: the last page holds between one and
/// `COUNT_PER_PAGE` books.
pub proof fn law_last_page_rounds_up(total: int)
    ensures
        (spec_last_page(total) - 1) * COUNT_PER_PAGE < total <= spec_last_page(total)
            * COUNT_PER_PAGE,
{
    let q = total / 20;
    let r = total % 20;
    vstd::arithmetic::div_mod::lemma_fundamental_div_mod(total, 20);
    assert(total == 20 * q + r);
    assert(0 <= r < 20);
}

/// The first line of a text is a prefix of it, holds no line feed, and is
/// its own first line; a text without line feed is its own first line.
pub proof fn law_first_line(s: Seq<char>)
    ensures
        s.take(spec_first_line(s).len() as int) == spec_first_line(s),
        spec_first_line(s).len() <= s.len(),
        has_no_newline(spec_first_line(s)),
        spec_first_line(spec_first_line(s)) == spec_first_line(s),
        has_no_newline(s) ==> spec_first_line(s) == s,
{
    lemma_line_end_bounds(s);
    let k = line_end(s) as int;
    let f = spec_first_line(s);
    assert(f.len() == k);
    assert(s.take(k) =~= f);
    assert(f.take(k) =~= f);
    lemma_line_end_characterized(f, k);
    assert(spec_first_line(f) =~= f);
    if has_no_newline(s) {
        assert(s.take(s.len() as int) =~= s);
        lemma_line_end_characterized(s, s.len() as int);
        assert(spec_first_line(s) =~= s);
    }
}

/// Formatting book labels twice gives what formatting them once gives.
pub proof fn law_format_labels_idempotent(a: BookLabels, b: BookLabels, c: BookLabels)
    requires
        formatted(&a, &b),
        formatted(&b, &c),
    ensures
        c.title.deep_view() == b.title.deep_view(),
        c.author.deep_view() == b.author.deep_view(),
        c.publisher.deep_view() == b.publisher.deep_view(),
{
    if let Some(t) = a.title.deep_view() {
        law_first_line(t);
    }
    if let Some(t) = a.author.deep_view() {
        law_first_line(t);
    }
    if let Some(t) = a.publisher.deep_view() {
        law_first_line(t);
    }
}

/// The value of a run of decimal digits.
pub open spec fn digits_value(s: Seq<char>) -> int
    decreases s.len(),
{
    if s.len() == 0 {
        0
    } else {
        digits_value(s.drop_last()) * 10 + (s.last() as int - 48)
    }
}

/// The value of a decimal number, with an optional leading `-`.
pub open spec fn decimal_value(s: Seq<char>) -> int {
    if s.len() > 0 && s[0] == '-' {
        -digits_value(s.drop_first())
    } else {
        digits_value(s)
    }
}

proof fn lemma_digits_value(n: nat)
    ensures
        digits_value(spec_digits(n)) == n,
        spec_digits(n).len() > 0,
        spec_digits(n)[0] != '-',
    decreases n,
{
    if n >= 10 {
        lemma_digits_value(n / 10);
        let d = spec_digits(n);
        assert(d.drop_last() =~= spec_digits(n / 10));
        assert(d[0] == spec_digits(n / 10)[0]);
        assert(d.last() as int == 48 + n % 10);
        vstd::arithmetic::div_mod::lemma_fundamental_div_mod(n as int, 10);
    } else {
        let d = spec_digits(n);
        assert(d.last() as int == 48 + n);
        assert(d.drop_last() =~= Seq::<char>::empty());
        assert(digits_value(d.drop_last()) == 0);
    }
}

/// Reading back a number written in decimal gives the number: distinct
/// numbers are written differently.
pub proof fn law_decimal_round_trip(n: int)
    ensures
        decimal_value(spec_decimal(n)) == n,
{
    if n < 0 {
        lemma_digits_value((-n) as nat);
        let s = spec_decimal(n);
        assert(s.drop_first() =~= spec_digits((-n) as nat));
    } else {
        lemma_digits_value(n as nat);
    }
}

/// A URI without a `page=` parameter is left as it is. From one with it, at
/// least the separator before `page=` is taken out; and when the characters
/// before that separator are ASCII, the separator and everything up to the
/// next `&` (or the end) are taken out, which is at least `?page=`.
pub proof fn law_strip_page_param(uri: Seq<char>)
    requires
        page_param_removable(uri),
    ensures
        spec_find(uri, page_pattern()) is None ==> spec_strip_page_param(uri) == uri,
        spec_find(uri, page_pattern()) is Some ==> spec_strip_page_param(uri).len() < uri.len(),
        spec_find(uri, page_pattern()) matches Some(p) ==> (extra_bytes(uri.take(p - 1)) == 0
            ==> {
            &&& spec_strip_page_param(uri) == uri.take(p - 1) + uri.skip(next_amp(uri, p))
            &&& spec_strip_page_param(uri).len() + 6 <= uri.len()
        }),
{
    if let Some(p) = spec_find(uri, page_pattern()) {
        lemma_find_occurs(uri, page_pattern(), 0);
        let k = p - 1;
        let w = uri.skip(k);
        lemma_strip_end_range(w, extra_bytes(uri.take(k)), 1);
        let r = strip_end_of(uri, p)->0;
        assert(spec_strip_page_param(uri).len() == uri.len() - r);
        if extra_bytes(uri.take(k)) == 0 {
            lemma_strip_end_ascii(uri, k, 1);
            lemma_next_amp_bounds(uri, p);
            assert(uri.subrange(p, p + 5) == page_pattern());
            assert forall|i: int| p <= i < p + 5 implies uri[i] != '&' by {
                assert(uri[i] == uri.subrange(p, p + 5)[i - p]);
            }
            lemma_next_amp_past(uri, p, p + 5);
        }
    }
}

/// Where the removal stops lies between the start and the end of `w`.
proof fn lemma_strip_end_range(w: Seq<char>, d: int, j: int)
    requires
        0 <= j <= w.len(),
    ensures
        strip_end(w, d, j) matches Some(r) ==> j <= r <= w.len(),
    decreases w.len() - j,
{
    if j < w.len() && j + d < w.len() && w[j + d] != '&' {
        lemma_strip_end_range(w, d, j + 1);
    }
}

/// With no extra bytes before it, the removal stops at the next `&`.
proof fn lemma_strip_end_ascii(uri: Seq<char>, k: int, j: int)
    requires
        0 <= k,
        1 <= j,
        k + j <= uri.len(),
    ensures
        strip_end(uri.skip(k), 0, j) == Some(next_amp(uri, k + j) - k),
    decreases uri.len() - k - j,
{
    let w = uri.skip(k);
    if j < w.len() {
        assert(w[j] == uri[k + j]);
        if uri[k + j] != '&' {
            lemma_strip_end_ascii(uri, k, j + 1);
        }
    }
}

proof fn lemma_find_occurs(s: Seq<char>, pat: Seq<char>, i: int)
    ensures
        crate::pagination::find_from(s, pat, i) matches Some(p) ==> i <= p && crate::pagination::occurs_at(s, pat, p),
    decreases s.len() + 1 - i,
{
    if i < 0 || i + pat.len() > s.len() {
    } else if crate::pagination::occurs_at(s, pat, i) {
    } else {
        lemma_find_occurs(s, pat, i + 1);
    }
}

proof fn lemma_next_amp_bounds(s: Seq<char>, j: int)
    requires
        0 <= j,
    ensures
        j <= next_amp(s, j) <= s.len() || (j > s.len() && next_amp(s, j) == s.len()),
    decreases s.len() - j,
{
    if j >= s.len() {
    } else if s[j] == '&' {
    } else {
        lemma_next_amp_bounds(s, j + 1);
    }
}

/// `next_amp` passes over characters that are not `&`.
proof fn lemma_next_amp_past(s: Seq<char>, j: int, k: int)
    requires
        0 <= j <= k <= s.len(),
        forall|i: int| j <= i < k ==> s[i] != '&',
    ensures
        next_amp(s, j) >= k,
    decreases k - j,
{
    if j < k {
        lemma_next_amp_past(s, j + 1, k);
    } else {
        lemma_next_amp_bounds(s, k);
    }
}

// ---------------------------------------------------------------------
// Search conditions and queries
// ---------------------------------------------------------------------

/// One search condition: with `=` the value is searched anywhere in the
/// column (`lhs LIKE '%rhs%'`), with any other comparison it is compared
/// as written (`lhs c 'rhs'`); a connective is put in front of the
/// condition after a single space, with nothing between it and the column.
pub proof fn law_as_query(con: Seq<char>, lhs: Seq<char>, c: Seq<char>, rhs: Seq<char>)
    ensures
        c == "="@ ==> spec_as_query(None, lhs, c, rhs) == lhs + " LIKE '%"@ + rhs + "%'"@,
        c != "="@ ==> spec_as_query(None, lhs, c, rhs) == lhs + " "@ + c + " '"@ + rhs + "'"@,
        spec_as_query(Some(con), lhs, c, rhs) == " "@ + con + spec_as_query(None, lhs, c, rhs),
{
    assert(spec_as_query(Some(con), lhs, c, rhs) =~= " "@ + con + spec_as_query(None, lhs, c, rhs));
}

/// The form with its third condition not asked for.
pub open spec fn without_third(q: ExtendedSearch) -> ExtendedSearch {
    ExtendedSearch { s3s: None, ..q }
}

/// The form with neither its second nor its third condition asked for.
pub open spec fn first_only(q: ExtendedSearch) -> ExtendedSearch {
    ExtendedSearch { s2s: None, s3s: None, ..q }
}

/// The form with no condition asked for.
pub open spec fn no_condition(q: ExtendedSearch) -> ExtendedSearch {
    ExtendedSearch { s1v: None, s2s: None, s3s: None, ..q }
}

/// The extended WHERE clause is `WHERE ` followed by the conditions that
/// are asked for, in order, each one's text depending only on its own
/// fields: taking the third condition away takes away exactly its text at
/// the end, taking the second away (with the third) takes away exactly its
/// text, and with the first alone the clause is `WHERE ` and its text. The
/// second condition is there whenever its connective is given and not
/// empty, whatever the third is.
pub proof fn law_extended_where_clause(q: ExtendedSearch)
    ensures
        spec_extended_where_clause(&no_condition(q)) == "WHERE "@,
        q.s1v is Some ==> spec_extended_where_clause(&first_only(q)) == "WHERE "@ + spec_as_query(
            None,
            q.s1v->0@,
            q.s1c->0@,
            q.s1->0@,
        ),
        q.s1v is None ==> spec_extended_where_clause(&first_only(q)) == "WHERE "@,
        (q.s2s is Some && q.s2s->0@.len() > 0) ==> spec_extended_where_clause(&without_third(q))
            == spec_extended_where_clause(&first_only(q)) + spec_as_query(
            Some(q.s2s->0@),
            q.s2v->0@,
            q.s2c->0@,
            q.s2->0@,
        ),
        !(q.s2s is Some && q.s2s->0@.len() > 0) ==> spec_extended_where_clause(&without_third(q))
            == spec_extended_where_clause(&first_only(q)),
        (q.s3s is Some && q.s3s->0@.len() > 0) ==> spec_extended_where_clause(&q)
            == spec_extended_where_clause(&without_third(q)) + spec_as_query(
            Some(q.s3s->0@),
            q.s3v->0@,
            q.s3c->0@,
            q.s3->0@,
        ),
        !(q.s3s is Some && q.s3s->0@.len() > 0) ==> spec_extended_where_clause(&q)
            == spec_extended_where_clause(&without_third(q)),
{
    let e: Seq<char> = Seq::empty();
    assert("WHERE "@ + e + e + e =~= "WHERE "@);
    if q.s1v is Some {
        let f = spec_as_query(None, q.s1v->0@, q.s1c->0@, q.s1->0@);
        assert("WHERE "@ + f + e + e =~= "WHERE "@ + f);
        assert(spec_extended_where_clause(&first_only(q)) =~= "WHERE "@ + f);
    } else {
        assert(spec_extended_where_clause(&first_only(q)) =~= "WHERE "@);
    }
    let first = spec_extended_where_clause(&first_only(q));
    if q.s2s is Some && q.s2s->0@.len() > 0 {
        let sec = spec_as_query(Some(q.s2s->0@), q.s2v->0@, q.s2c->0@, q.s2->0@);
        assert(spec_extended_where_clause(&without_third(q)) =~= first + sec);
    } else {
        assert(spec_extended_where_clause(&without_third(q)) =~= first);
    }
    let upto = spec_extended_where_clause(&without_third(q));
    if q.s3s is Some && q.s3s->0@.len() > 0 {
        let thi = spec_as_query(Some(q.s3s->0@), q.s3v->0@, q.s3c->0@, q.s3->0@);
        assert(spec_extended_where_clause(&q) =~= upto + thi);
    } else {
        assert(spec_extended_where_clause(&q) =~= upto);
    }
}

/// The simple WHERE clause searches the text in the title and in the
/// author, for every text, and is empty when no text is given.
pub proof fn law_simple_where_clause(s: Seq<char>)
    ensures
        spec_simple_where_clause(Some(s)) == "WHERE title LIKE '%"@ + s + "%'"@ + " OR author LIKE '%"@
            + s + "%'"@,
        spec_simple_where_clause(Some(s)).len() == spec_simple_where_clause(Some(Seq::empty())).len()
            + 2 * s.len(),
        spec_simple_where_clause(None) == Seq::<char>::empty(),
{
    reveal_strlit("%' OR author LIKE '%");
    reveal_strlit("%'");
    reveal_strlit(" OR author LIKE '%");
    assert("%' OR author LIKE '%"@ =~= "%'"@ + " OR author LIKE '%"@);
    let e: Seq<char> = Seq::empty();
    assert(spec_simple_where_clause(Some(e)) =~= "WHERE title LIKE '%"@ + "%' OR author LIKE '%"@
        + "%'"@);
}

/// The count query holds the WHERE clause it is given, whole, between a
/// fixed beginning (which ends with the table's name) and a fixed end; the
/// books query holds the same clause in the same way. So the count counts
/// the books that the clause selects.
pub proof fn law_queries_hold_where_clause(w: Seq<char>, start: int)
    ensures
        spec_count_query(w) == "\n      SELECT COUNT(*) as count FROM merged_books_aggregated_updated_finished\n      "@
            + w + "\n      ORDER BY score DESC\n    "@,
        spec_count_query(w).len() == spec_count_query(Seq::empty()).len() + w.len(),
        spec_count_query(w).subrange(
            spec_count_query(Seq::empty()).len() - "\n      ORDER BY score DESC\n    "@.len(),
            spec_count_query(Seq::empty()).len() - "\n      ORDER BY score DESC\n    "@.len()
                + w.len(),
        ) == w,
        spec_books_query(w, start).len() == spec_books_query(Seq::empty(), start).len() + w.len(),
{
    let pre = "\n      SELECT COUNT(*) as count FROM merged_books_aggregated_updated_finished\n      "@;
    let post = "\n      ORDER BY score DESC\n    "@;
    let e: Seq<char> = Seq::empty();
    assert(pre + e + post =~= pre + post);
    assert((pre + w + post).subrange(pre.len() as int, (pre.len() + w.len()) as int) =~= w);
}

// ---------------------------------------------------------------------
// Page information and formatting
// ---------------------------------------------------------------------

/// The last position a page announces is the one `COUNT_PER_PAGE - 1`
/// after the books it skips, or the number of matching books when that is
/// smaller, whether a page number is given or not; a missing page number
/// is page 1.
pub proof fn law_count_information(sindex: int, count: int, page: Option<i64>)
    ensures
        spec_count_information(sindex, count, page).0 == count,
        spec_count_information(sindex, count, page).1 == sindex + 1,
        spec_count_information(sindex, count, page).2 <= count,
        spec_count_information(sindex, count, page).2 <= sindex + COUNT_PER_PAGE - 1,
        spec_count_information(sindex, count, page).2 == count || spec_count_information(
            sindex,
            count,
            page,
        ).2 == sindex + COUNT_PER_PAGE - 1,
        spec_count_information(sindex, count, None) == spec_count_information(
            sindex,
            count,
            Some(1i64),
        ),
        page matches Some(p) ==> spec_count_information(sindex, count, page).3 == p,
{
}

/// Formatting keeps a field present exactly when it was present, and a
/// present field becomes the longest prefix of its text that holds no line
/// feed: what comes after it, if anything, is a line feed.
pub proof fn law_first_line_of(field: Option<Seq<char>>)
    ensures
        spec_first_line_of(field) is Some <==> field is Some,
        field matches Some(s) ==> ({
            let f = spec_first_line_of(field)->0;
            &&& f.len() <= s.len()
            &&& s.take(f.len() as int) == f
            &&& has_no_newline(f)
            &&& (f.len() == s.len() || s[f.len() as int] == '\n')
        }),
{
    if let Some(s) = field {
        law_first_line(s);
        lemma_line_end_bounds(s);
    }
}

/// Formatted book labels keep each field present exactly when it was, and
/// each present field is the longest newline-free prefix of what it was.
pub proof fn law_formatted_labels(before: BookLabels, after: BookLabels)
    requires
        formatted(&before, &after),
    ensures
        after.title is Some <==> before.title is Some,
        after.author is Some <==> before.author is Some,
        after.publisher is Some <==> before.publisher is Some,
        before.title matches Some(t) ==> after.title->0@ == spec_first_line(t@),
        before.author matches Some(t) ==> after.author->0@ == spec_first_line(t@),
        before.publisher matches Some(t) ==> after.publisher->0@ == spec_first_line(t@),
{
    law_first_line_of(before.title.deep_view());
    law_first_line_of(before.author.deep_view());
    law_first_line_of(before.publisher.deep_view());
}

/// The books query holds the WHERE clause between a fixed beginning and
/// the `LIMIT` part, which skips `start` books and takes `COUNT_PER_PAGE`.
pub proof fn law_books_query(w: Seq<char>, start: int)
    ensures
        spec_books_query(w, start) == "\n    WITH ranked_books AS (\n      SELECT *, RANK () OVER (\n        ORDER BY score DESC\n      ) rank FROM merged_books_aggregated_updated_finished\n    )\n    SELECT * FROM ranked_books\n    "@
            + w + "\n    ORDER BY score DESC LIMIT "@ + spec_decimal(start) + ", "@
            + spec_decimal(20) + "\n  "@,
        decimal_value(spec_decimal(start)) == start,
        decimal_value(spec_decimal(COUNT_PER_PAGE as int)) == 20,
{
    law_decimal_round_trip(start);
    law_decimal_round_trip(20);
}

/// A form has a value exactly when one of its eleven text fields is given;
/// the page number alone does not count.
pub proof fn law_has_value(q: ExtendedSearch)
    ensures
        !q.spec_has_value() <==> (q.s1v is None && q.s1c is None && q.s1 is None && q.s2s is None
            && q.s2v is None && q.s2c is None && q.s2 is None && q.s3s is None && q.s3v is None
            && q.s3c is None && q.s3 is None),
        no_condition(q).spec_is_complete(),
{
}

/// The base of the page links is the URI without its page parameter,
/// followed by `&page=` or `?page=`, so that a page number written after it
/// makes the link to that page.
pub proof fn law_page_link_base(uri: Seq<char>)
    ensures
        spec_page_link_base(uri) == spec_strip_page_param(uri) + "&page="@
            || spec_page_link_base(uri) == spec_strip_page_param(uri) + "?page="@,
        spec_find(spec_strip_page_param(uri), seq!['/', '?']) is Some ==> spec_page_link_base(uri)
            == spec_strip_page_param(uri) + "&page="@,
{
}

} // verus!

