use delta_journal::session::{
    session_writes, write_beginning_meta_files, Session, SessionError, SessionWrites,
};

fn text(s: &str) -> Option<String> {
    Some(s.to_string())
}

#[test]
fn first_event_writes_every_record() {
    let session = Session::new();
    let writes = session_writes(&session, 100, text("refs/heads/main"), text("abc123")).unwrap();
    assert_eq!(
        writes,
        SessionWrites {
            start: Some(100),
            branch: text("refs/heads/main"),
            commit: text("abc123"),
            last: 100,
        }
    );
}

#[test]
fn later_events_write_only_the_last_activity() {
    let mut session = Session::new();
    let first = session_writes(&session, 100, text("refs/heads/main"), text("abc123")).unwrap();
    session.record(first);
    for now in [101, 150, 150, 90] {
        let writes = session_writes(&session, now, text("refs/heads/other"), text("def456")).unwrap();
        assert_eq!(writes, SessionWrites { start: None, branch: None, commit: None, last: now });
        session.record(writes);
        assert_eq!(
            session,
            Session {
                start: Some(100),
                last: Some(now),
                branch: text("refs/heads/main"),
                commit: text("abc123"),
            }
        );
    }
}

#[test]
fn head_is_not_needed_once_the_identity_is_written() {
    let session = Session { start: Some(1), last: Some(2), branch: text("b"), commit: text("c") };
    assert_eq!(
        session_writes(&session, 3, None, None),
        Ok(SessionWrites { start: None, branch: None, commit: None, last: 3 })
    );
}

#[test]
fn unreadable_branch_fails_the_event() {
    let session = Session::new();
    assert_eq!(session_writes(&session, 5, None, text("abc")), Err(SessionError::BranchUnreadable));
    assert_eq!(session_writes(&session, 5, None, None), Err(SessionError::BranchUnreadable));
}

#[test]
fn unreadable_commit_fails_the_event() {
    let session = Session::new();
    assert_eq!(session_writes(&session, 5, text("b"), None), Err(SessionError::CommitUnreadable));
    let half = Session { start: Some(1), last: Some(1), branch: text("b"), commit: None };
    assert_eq!(session_writes(&half, 5, None, None), Err(SessionError::CommitUnreadable));
}

#[test]
fn missing_records_are_filled_one_by_one() {
    let session = Session { start: None, last: Some(7), branch: text("b"), commit: None };
    assert_eq!(
        session_writes(&session, 9, text("other"), text("c9")),
        Ok(SessionWrites { start: Some(9), branch: None, commit: text("c9"), last: 9 })
    );
}

#[test]
fn record_keeps_what_was_not_written() {
    let mut session = Session { start: Some(1), last: Some(2), branch: text("b"), commit: None };
    session.record(SessionWrites { start: None, branch: None, commit: text("c"), last: 3 });
    assert_eq!(
        session,
        Session { start: Some(1), last: Some(3), branch: text("b"), commit: text("c") }
    );
}

#[test]
fn clock_stamps_start_and_last_alike() {
    let session = Session::new();
    let writes = write_beginning_meta_files(&session, text("main"), text("abc")).unwrap();
    assert_eq!(writes.start, Some(writes.last));
    assert!(writes.last > 1_600_000_000);
    assert_eq!(writes.branch, text("main"));
    assert_eq!(writes.commit, text("abc"));
    assert_eq!(
        write_beginning_meta_files(&session, None, text("abc")),
        Err(SessionError::BranchUnreadable)
    );
}
