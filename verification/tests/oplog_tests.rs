use delta_journal::oplog::{Oplog, OplogError, OplogHandle, StateFile};

#[test]
fn handle_names_its_file() {
    let handle = OplogHandle::new("/repo/.git/gitbutler");
    assert_eq!(handle.base_path(), "/repo/.git/gitbutler");
    assert_eq!(handle.file_name(), "oplog.toml");
}

#[test]
fn missing_file_is_the_empty_state() {
    let handle = OplogHandle::new("/repo");
    assert_eq!(handle.read_file(StateFile::Missing), Ok(Oplog { head_sha: None }));
    assert_eq!(handle.get_oplog_head(StateFile::Missing), Ok(None));
    assert_eq!(Oplog::default(), Oplog { head_sha: None });
}

#[test]
fn head_is_read_from_the_state() {
    let handle = OplogHandle::new("/repo");
    let stored = StateFile::Parsed(Oplog { head_sha: Some("abc".to_string()) });
    assert_eq!(handle.get_oplog_head(stored), Ok(Some("abc".to_string())));
}

#[test]
fn head_is_replaced() {
    let handle = OplogHandle::new("/repo");
    let stored = StateFile::Parsed(Oplog { head_sha: Some("abc".to_string()) });
    assert_eq!(
        handle.set_oplog_head(stored, "def".to_string()),
        Ok(Oplog { head_sha: Some("def".to_string()) })
    );
    assert_eq!(
        handle.set_oplog_head(StateFile::Missing, "def".to_string()),
        Ok(Oplog { head_sha: Some("def".to_string()) })
    );
}

#[test]
fn malformed_file_is_an_error() {
    let handle = OplogHandle::new("/repo");
    assert_eq!(handle.read_file(StateFile::Malformed), Err(OplogError::ParseError));
    assert_eq!(handle.get_oplog_head(StateFile::Malformed), Err(OplogError::ParseError));
    assert_eq!(
        handle.set_oplog_head(StateFile::Malformed, "x".to_string()),
        Err(OplogError::ParseError)
    );
}
