//! The head of the operations log, as its state file holds it.

use vstd::prelude::*;
use vstd::string::*;

verus! {

/// The state of the operations log.
#[derive(Debug, PartialEq, Eq)]
pub struct Oplog {
    /// The id of the last commit of the log, once there is one.
    pub head_sha: Option<String>,
}

impl Default for Oplog {
    fn default() -> (oplog: Oplog)
        ensures
            oplog.head_sha is None,
    {
        Oplog { head_sha: None }
    }
}

/// What was found where the state file should be.
pub enum StateFile {
    /// There is no file yet.
    Missing,
    /// The file holds this state.
    Parsed(Oplog),
    /// The file holds something that is no state.
    Malformed,
}

/// Why the state of the log could not be had.
#[derive(Debug, Clone, Copy, PartialEq, Eq, Structural)]
pub enum OplogError {
    /// The state file could not be parsed.
    ParseError,
}

/// The state that a found file stands for, if it stands for one: the empty
/// state where there is no file.
pub open spec fn state_of(stored: StateFile) -> Option<Oplog> {
    match stored {
        StateFile::Missing => Some(Oplog { head_sha: None }),
        StateFile::Parsed(oplog) => Some(oplog),
        StateFile::Malformed => None,
    }
}

/// A handle to the state file of one project.
pub struct OplogHandle {
    base_path: String,
}

impl OplogHandle {
    /// The directory that holds the state file.
    pub closed spec fn base(&self) -> Seq<char> {
        self.base_path@
    }

    /// A handle to the state file below `base_path`.
    pub fn new(base_path: &str) -> (handle: OplogHandle)
        ensures
            handle.base() == base_path@,
    {
        OplogHandle { base_path: base_path.to_owned() }
    }

    /// The directory that holds the state file.
    pub fn base_path(&self) -> (path: &str)
        ensures
            path@ == self.base(),
    {
        self.base_path.as_str()
    }

    /// The name of the state file in its directory.
    pub fn file_name(&self) -> (name: &'static str)
        ensures
            name@ == "oplog.toml"@,
    {
        "oplog.toml"
    }

    /// The state that was found: a missing file is the empty state, a
    /// malformed one an error.
    pub fn read_file(&self, stored: StateFile) -> (state: Result<Oplog, OplogError>)
        ensures
            state is Err <==> stored is Malformed,
            state is Ok ==> Some(state->Ok_0) == state_of(stored),
    {
        match stored {
            StateFile::Missing => Ok(Oplog::default()),
            StateFile::Parsed(oplog) => Ok(oplog),
            StateFile::Malformed => Err(OplogError::ParseError),
        }
    }

    /// The state to store so that `sha` is the head of the log: what was
    /// found, with the head replaced.
    pub fn set_oplog_head(&self, stored: StateFile, sha: String) -> (state: Result<
        Oplog,
        OplogError,
    >)
        ensures
            state is Err <==> stored is Malformed,
            state is Ok ==> state->Ok_0 == (Oplog { head_sha: Some(sha) }),
    {
        let mut oplog = match self.read_file(stored) {
            Ok(oplog) => oplog,
            Err(e) => {
                return Err(e);
            },
        };
        oplog.head_sha = Some(sha);
        Ok(oplog)
    }

    /// The head of the log in the state that was found.
    pub fn get_oplog_head(&self, stored: StateFile) -> (head: Result<Option<String>, OplogError>)
        ensures
            head is Err <==> stored is Malformed,
            head is Ok ==> state_of(stored) is Some && head->Ok_0 == state_of(stored)->0.head_sha,
    {
        match self.read_file(stored) {
            Ok(oplog) => Ok(oplog.head_sha),
            Err(e) => Err(e),
        }
    }
}

} // verus!
