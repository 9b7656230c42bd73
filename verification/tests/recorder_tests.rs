use delta_journal::delta::{apply, Delta, Operation};
use delta_journal::document::{JournalMismatch, TextDocument};
use delta_journal::recorder::{
    deltas_event, event_name, get_meta_commit, reconstruct, register_file_change, should_capture,
    Recorded,
};

fn insert(text: &str, ms: u128) -> Delta {
    Delta::new(vec![Operation::Insert(text.to_string())], ms)
}

#[test]
fn write_of_new_content_records_one_delta() {
    let recorded = register_file_change(Some("hello"), None, "hello world", 5).unwrap().unwrap();
    assert_eq!(recorded.fresh.len(), 1);
    assert_eq!(recorded.journal, recorded.fresh);
    assert_eq!(apply(&recorded.fresh[0], "hello"), "hello world");
    let doc = TextDocument::new("hello", recorded.journal).unwrap();
    assert_eq!(doc.to_string(), "hello world");
}

#[test]
fn write_of_identical_content_records_nothing() {
    assert_eq!(register_file_change(Some("hello"), None, "hello", 5), Ok(None));
}

#[test]
fn write_on_top_of_a_journal_appends() {
    let prior = vec![Delta::new(vec![Operation::Retain(5), Operation::Insert("!".to_string())], 1)];
    let recorded =
        register_file_change(Some("hello"), Some(prior.clone()), "hello!?", 2).unwrap().unwrap();
    assert_eq!(recorded.journal.len(), 2);
    assert_eq!(recorded.journal[0], prior[0]);
    assert_eq!(
        recorded.fresh,
        vec![Delta::new(vec![Operation::Retain(6), Operation::Insert("?".to_string())], 2)]
    );
}

#[test]
fn write_that_matches_the_journal_records_nothing() {
    let prior = vec![insert("draft", 1)];
    assert_eq!(register_file_change(None, Some(prior), "draft", 2), Ok(None));
}

#[test]
fn write_to_an_untracked_file_without_journal() {
    let recorded = register_file_change(None, None, "new", 3).unwrap().unwrap();
    assert_eq!(recorded.fresh, vec![insert("new", 3)]);
    assert_eq!(register_file_change(None, None, "", 3), Ok(None));
}

#[test]
fn broken_journal_is_refused() {
    let prior = vec![Delta::new(vec![Operation::Retain(9)], 1)];
    assert_eq!(
        register_file_change(Some("hello"), Some(prior), "x", 2),
        Err(JournalMismatch { index: 0 })
    );
}

#[test]
fn reconstruct_four_cases() {
    let deltas = || vec![Delta::new(vec![Operation::Delete(0), Operation::Insert(">".to_string())], 1)];
    let on_base = || vec![Delta::new(vec![Operation::Insert(">".to_string()), Operation::Retain(4)], 1)];
    assert_eq!(reconstruct(Some("base"), Some(on_base())).unwrap().to_string(), ">base");
    assert_eq!(reconstruct(Some("base"), None).unwrap().to_string(), "base");
    assert_eq!(reconstruct(None, Some(deltas())).unwrap().to_string(), ">");
    assert_eq!(reconstruct(None, None).unwrap().to_string(), "");
}

#[test]
fn ignored_or_missing_targets_are_skipped() {
    assert!(should_capture(true, Some(false)));
    assert!(!should_capture(true, Some(true)));
    assert!(!should_capture(true, None));
    assert!(!should_capture(false, Some(false)));
    assert!(!should_capture(false, Some(true)));
    assert!(!should_capture(false, None));
}

#[test]
fn working_pointer_wins_over_head() {
    let current = Some("c1".to_string());
    let head = Some("h1".to_string());
    assert_eq!(get_meta_commit(current.clone(), head.clone()), current);
    assert_eq!(get_meta_commit(None, head.clone()), head);
    assert_eq!(get_meta_commit(current.clone(), None), current);
    assert_eq!(get_meta_commit(None, None), None);
}

#[test]
fn event_name_has_the_project_id() {
    assert_eq!(event_name("p-42"), "deltas://p-42");
    assert_eq!(event_name(""), "deltas://");
}

#[test]
fn event_carries_the_fresh_deltas() {
    let recorded = Recorded { journal: vec![insert("a", 1), insert("b", 2)], fresh: vec![insert("b", 2)] };
    let event = deltas_event("p", "src/file.txt", recorded);
    assert_eq!(event.project_id, "p");
    assert_eq!(event.file_path, "src/file.txt");
    assert_eq!(event.deltas, vec![insert("b", 2)]);
}
