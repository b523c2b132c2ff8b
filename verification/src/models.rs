//! Rows read from the book table, as far as the library's logic reads them.
use vstd::prelude::*;
use crate::text::{first_line, spec_first_line};

verus! {

/// One row of a `COUNT(*)` query.
pub struct Count {
    pub count: i64,
}

/// The last row's count of a `COUNT(*)` query's result, which has at least one row.
pub fn last_row_count(rows: Vec<Count>) -> (res: i64)
    requires
        rows.len() > 0,
    ensures
        res == rows@.last().count,
{
    let mut rows = rows;
    let row = rows.pop().unwrap();
    row.count
}

/// The text fields of a book that are shown as one line each.
pub struct BookLabels {
    pub title: Option<String>,
    pub author: Option<String>,
    pub publisher: Option<String>,
}

/// A missing field stays missing; a present one keeps its first line.
pub open spec fn spec_first_line_of(field: Option<Seq<char>>) -> Option<Seq<char>> {
    match field {
        Some(s) => Some(spec_first_line(s)),
        None => None,
    }
}

/// The labels of a book after formatting: each present field keeps only
/// its first line.
pub open spec fn formatted(before: &BookLabels, after: &BookLabels) -> bool {
    &&& after.title.deep_view() == spec_first_line_of(before.title.deep_view())
    &&& after.author.deep_view() == spec_first_line_of(before.author.deep_view())
    &&& after.publisher.deep_view() == spec_first_line_of(before.publisher.deep_view())
}

fn first_line_of(field: &Option<String>) -> (res: Option<String>)
    ensures
        res.deep_view() == spec_first_line_of(field.deep_view()),
{
    match field {
        Some(s) => Some(first_line(s.as_str())),
        None => None,
    }
}

/// Keeps only the first line of a book's title, author and publisher.
pub fn format_labels(labels: &BookLabels) -> (res: BookLabels)
    ensures
        formatted(labels, &res),
{
    BookLabels {
        title: first_line_of(&labels.title),
        author: first_line_of(&labels.author),
        publisher: first_line_of(&labels.publisher),
    }
}

/// Keeps only the first line of each book's title, author and publisher.
pub fn format_books(books: &mut Vec<BookLabels>)
    ensures
        final(books)@.len() == old(books)@.len(),
        forall|i: int|
            0 <= i < old(books)@.len() ==> formatted(&old(books)@[i], &#[trigger] final(books)@[i]),
{
    let ghost before = books@;
    let n = books.len();
    let mut i: usize = 0;
    while i < n
        invariant
            n == before.len(),
            books@.len() == n,
            i <= n,
            forall|j: int| 0 <= j < i ==> formatted(&before[j], &#[trigger] books@[j]),
            forall|j: int| i <= j < n ==> #[trigger] books@[j] == before[j],
        decreases n - i,
    {
        let labels = format_labels(&books[i]);
        books.set(i, labels);
        i = i + 1;
    }
}

} // verus!
