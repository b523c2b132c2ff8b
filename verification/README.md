# book_reviews

A web application that lists New York Times best sellers with their
Goodreads, Amazon and Google reviews, searchable by title and author or by
up to three column conditions, twenty books a page.

- `src/` is the verified library: the SQL text of the searches (`query`),
  the first-line formatting of book labels (`models`, `text`), the page
  ranges, page count and page-link HTML (`pagination`), the error text
  (`error`), and the properties that hold across them (`laws`).
- `app/` is the server: HTTP routing, the database, template rendering and
  logging, which call the library for every decision and every text it builds.
- `tests/` runs the library on concrete values.
