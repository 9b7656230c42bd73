use delta_journal::delta::{apply, Delta, Operation};
use delta_journal::document::{JournalMismatch, TextDocument};

fn append(at: usize, text: &str, ms: u128) -> Delta {
    Delta::new(vec![Operation::Retain(at), Operation::Insert(text.to_string())], ms)
}

#[test]
fn new_replays_deltas_over_the_base() {
    let doc = TextDocument::new("hello", vec![append(5, " world", 1), append(11, "!", 2)]).unwrap();
    assert_eq!(doc.to_string(), "hello world!");
    assert_eq!(doc.get_deltas(), vec![append(5, " world", 1), append(11, "!", 2)]);
}

#[test]
fn new_without_deltas_is_the_base() {
    let doc = TextDocument::new("hello", vec![]).unwrap();
    assert_eq!(doc.to_string(), "hello");
    assert!(doc.get_deltas().is_empty());
}

#[test]
fn from_deltas_starts_empty() {
    let doc = TextDocument::from_deltas(vec![]).unwrap();
    assert_eq!(doc.to_string(), "");
    let doc = TextDocument::from_deltas(vec![
        Delta::new(vec![Operation::Insert("ab".to_string())], 1),
        append(2, "c", 2),
    ])
    .unwrap();
    assert_eq!(doc.to_string(), "abc");
}

#[test]
fn new_reports_the_first_delta_that_does_not_fit() {
    let made = TextDocument::new("hello", vec![append(5, "!", 1), append(5, "?", 2)]);
    assert_eq!(made.err(), Some(JournalMismatch { index: 1 }));
    let made = TextDocument::from_deltas(vec![append(1, "x", 1)]);
    assert_eq!(made.err(), Some(JournalMismatch { index: 0 }));
}

#[test]
fn update_appends_one_delta() {
    let mut doc = TextDocument::new("hello", vec![]).unwrap();
    assert!(doc.update("hello world", 10));
    assert_eq!(doc.to_string(), "hello world");
    let deltas = doc.get_deltas();
    assert_eq!(deltas, vec![append(5, " world", 10)]);
    assert_eq!(apply(&deltas[0], "hello"), "hello world");
}

#[test]
fn update_with_the_same_content_twice() {
    let mut doc = TextDocument::new("one", vec![]).unwrap();
    assert!(doc.update("two", 1));
    assert!(!doc.update("two", 2));
    assert_eq!(doc.get_deltas().len(), 1);
    assert_eq!(doc.to_string(), "two");
}

#[test]
fn update_with_the_current_text_records_nothing() {
    let mut doc = TextDocument::new("same", vec![]).unwrap();
    assert!(!doc.update("same", 1));
    assert!(doc.get_deltas().is_empty());
    assert!(doc.is_text("same"));
    assert!(!doc.is_text("other"));
}

#[test]
fn journal_rebuilds_the_text_after_many_updates() {
    let mut doc = TextDocument::new("base", vec![]).unwrap();
    for (i, text) in ["base one", "one", "", "héllo", "héllo wörld"].iter().enumerate() {
        assert!(doc.update(text, i as u128));
    }
    let again = TextDocument::new("base", doc.get_deltas()).unwrap();
    assert_eq!(again.to_string(), "héllo wörld");
    assert_eq!(again.get_deltas().len(), 5);
}
