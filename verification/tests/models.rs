use book_reviews::error::MyError;
use book_reviews::models::{format_books, format_labels, last_row_count, BookLabels, Count};

#[test]
fn format_books_keeps_first_lines() {
    let mut books = vec![
        BookLabels {
            title: Some("Dune\nA novel".to_string()),
            author: Some("Frank Herbert".to_string()),
            publisher: None,
        },
        BookLabels {
            title: None,
            author: Some("A\nB\nC".to_string()),
            publisher: Some("\nAce".to_string()),
        },
    ];
    format_books(&mut books);
    assert_eq!(books.len(), 2);
    assert_eq!(books[0].title.as_deref(), Some("Dune"));
    assert_eq!(books[0].author.as_deref(), Some("Frank Herbert"));
    assert_eq!(books[0].publisher, None);
    assert_eq!(books[1].title, None);
    assert_eq!(books[1].author.as_deref(), Some("A"));
    assert_eq!(books[1].publisher.as_deref(), Some(""));
}

#[test]
fn format_labels_twice_is_once() {
    let b = BookLabels {
        title: Some("x\ny".to_string()),
        author: Some("z".to_string()),
        publisher: Some("p\n".to_string()),
    };
    let once = format_labels(&b);
    let twice = format_labels(&once);
    assert_eq!(once.title, twice.title);
    assert_eq!(once.author, twice.author);
    assert_eq!(once.publisher, twice.publisher);
}

#[test]
fn last_row_count_takes_last_row() {
    assert_eq!(last_row_count(vec![Count { count: 5 }]), 5);
    assert_eq!(last_row_count(vec![Count { count: 1 }, Count { count: 42 }]), 42);
}

#[test]
fn error_message_text() {
    let e = MyError("oh no".to_string());
    assert_eq!(e.message(), "A validation error occured on the input.");
}
