//! Session bookkeeping: which of a project's four session records an event
//! writes.

use vstd::prelude::*;

verus! {

/// The session records of one project, as its store holds them. A record
/// that was never written is `None`.
#[derive(Debug, PartialEq, Eq)]
pub struct Session {
    /// When the session began, in seconds.
    pub start: Option<i64>,
    /// When the project was last active, in seconds.
    pub last: Option<i64>,
    /// The branch that was checked out when the session began.
    pub branch: Option<String>,
    /// The commit at the head when the session began.
    pub commit: Option<String>,
}

/// The mathematical form of a [`Session`].
pub struct SessionModel {
    pub start: Option<int>,
    pub last: Option<int>,
    pub branch: Option<Seq<char>>,
    pub commit: Option<Seq<char>>,
}

/// The view of an optional text.
pub open spec fn text_of(value: Option<String>) -> Option<Seq<char>> {
    match value {
        Some(text) => Some(text@),
        None => None,
    }
}

/// The view of an optional time.
pub open spec fn time_of(value: Option<i64>) -> Option<int> {
    match value {
        Some(seconds) => Some(seconds as int),
        None => None,
    }
}

impl View for Session {
    type V = SessionModel;

    open spec fn view(&self) -> SessionModel {
        SessionModel {
            start: time_of(self.start),
            last: time_of(self.last),
            branch: text_of(self.branch),
            commit: text_of(self.commit),
        }
    }
}

/// The records that one event writes. `None` means: leave that record alone.
#[derive(Debug, PartialEq, Eq)]
pub struct SessionWrites {
    pub start: Option<i64>,
    pub branch: Option<String>,
    pub commit: Option<String>,
    /// The last-activity record is written on every event.
    pub last: i64,
}

/// The mathematical form of [`SessionWrites`].
pub struct WritesModel {
    pub start: Option<int>,
    pub branch: Option<Seq<char>>,
    pub commit: Option<Seq<char>>,
    pub last: int,
}

impl View for SessionWrites {
    type V = WritesModel;

    open spec fn view(&self) -> WritesModel {
        WritesModel {
            start: time_of(self.start),
            branch: text_of(self.branch),
            commit: text_of(self.commit),
            last: self.last as int,
        }
    }
}

/// Why an event wrote no session record: the session's identity was still
/// to be written, and the repository's head could not be read.
#[derive(Debug, Clone, Copy, PartialEq, Eq, Structural)]
pub enum SessionError {
    /// The branch record is missing and the head's branch is unknown.
    BranchUnreadable,
    /// The commit record is missing and the head's commit is unknown.
    CommitUnreadable,
}

/// One event as the session tracker sees it: the time, and what could be read
/// of the repository's head.
pub struct ActivityModel {
    pub now: int,
    pub head_branch: Option<Seq<char>>,
    pub head_commit: Option<Seq<char>>,
}

/// A project that was never active: no record exists.
pub open spec fn fresh_session() -> SessionModel {
    SessionModel { start: None, last: None, branch: None, commit: None }
}

/// The branch record has to be written and there is nothing to write.
pub open spec fn branch_unreadable(
    session: SessionModel,
    head_branch: Option<Seq<char>>,
) -> bool {
    session.branch is None && head_branch is None
}

/// The commit record has to be written and there is nothing to write.
pub open spec fn commit_unreadable(
    session: SessionModel,
    head_commit: Option<Seq<char>>,
) -> bool {
    session.commit is None && head_commit is None
}

/// The error of an event that cannot fill the session's identity, if it is
/// one; the branch is looked at first.
pub open spec fn identity_error(
    session: SessionModel,
    head_branch: Option<Seq<char>>,
    head_commit: Option<Seq<char>>,
) -> Option<SessionError> {
    if branch_unreadable(session, head_branch) {
        Some(SessionError::BranchUnreadable)
    } else if commit_unreadable(session, head_commit) {
        Some(SessionError::CommitUnreadable)
    } else {
        None
    }
}

/// What an event writes when the head is readable as far as it is needed:
/// each of start, branch and commit only if the record is missing, and the
/// last activity always.
pub open spec fn writes_for(session: SessionModel, event: ActivityModel) -> WritesModel {
    WritesModel {
        start: if session.start is None { Some(event.now) } else { None },
        branch: if session.branch is None { event.head_branch } else { None },
        commit: if session.commit is None { event.head_commit } else { None },
        last: event.now,
    }
}

/// The records after the given writes.
pub open spec fn after_writes(session: SessionModel, writes: WritesModel) -> SessionModel {
    SessionModel {
        start: if writes.start is Some { writes.start } else { session.start },
        last: Some(writes.last),
        branch: if writes.branch is Some { writes.branch } else { session.branch },
        commit: if writes.commit is Some { writes.commit } else { session.commit },
    }
}

/// The records after one event: unchanged if the event fails, else after its
/// writes.
pub open spec fn after_event(session: SessionModel, event: ActivityModel) -> SessionModel {
    if identity_error(session, event.head_branch, event.head_commit) is Some {
        session
    } else {
        after_writes(session, writes_for(session, event))
    }
}

/// The records after a run of events, in order.
pub open spec fn after_events(session: SessionModel, events: Seq<ActivityModel>) -> SessionModel
    decreases events.len(),
{
    if events.len() == 0 {
        session
    } else {
        after_event(after_events(session, events.drop_last()), events.last())
    }
}

/// Start, branch and commit are written once: on a project that was never
/// active, after any number of events the three records hold what the first
/// event wrote, and the last-activity record holds the time of the latest
/// event. The head must be readable at the first event; an event that cannot
/// read it writes nothing.
pub proof fn lemma_session_single_write(events: Seq<ActivityModel>, n: int)
    requires
        1 <= n <= events.len(),
        events[0].head_branch is Some,
        events[0].head_commit is Some,
    ensures
        after_events(fresh_session(), events.take(n)).start == Some(events[0].now),
        after_events(fresh_session(), events.take(n)).branch == events[0].head_branch,
        after_events(fresh_session(), events.take(n)).commit == events[0].head_commit,
        after_events(fresh_session(), events.take(n)).last == Some(events[n - 1].now),
    decreases n,
{
    assert(events.take(n).drop_last() =~= events.take(n - 1));
    if n == 1 {
        assert(events.take(0).len() == 0);
    } else {
        lemma_session_single_write(events, n - 1);
    }
}

/// A record of start, branch or commit that exists is never written again.
pub proof fn lemma_identity_kept(session: SessionModel, event: ActivityModel)
    ensures
        session.start is Some ==> after_event(session, event).start == session.start,
        session.branch is Some ==> after_event(session, event).branch == session.branch,
        session.commit is Some ==> after_event(session, event).commit == session.commit,
{
}

/// Decides what an event at time `now` writes, given the records that exist
/// and what could be read of the head.
///
/// Nothing is written when a missing branch or commit record cannot be
/// filled: a session never gets half an identity.
pub fn session_writes(
    session: &Session,
    now: i64,
    head_branch: Option<String>,
    head_commit: Option<String>,
) -> (outcome: Result<SessionWrites, SessionError>)
    ensures
        outcome is Err <==> identity_error(session@, text_of(head_branch), text_of(head_commit))
            is Some,
        outcome is Err ==> Some(outcome->Err_0) == identity_error(
            session@,
            text_of(head_branch),
            text_of(head_commit),
        ),
        outcome is Ok ==> outcome->Ok_0@ == writes_for(
            session@,
            (ActivityModel {
                now: now as int,
                head_branch: text_of(head_branch),
                head_commit: text_of(head_commit),
            }),
        ),
{
    let need_branch = session.branch.is_none();
    let need_commit = session.commit.is_none();
    if need_branch && head_branch.is_none() {
        return Err(SessionError::BranchUnreadable);
    }
    if need_commit && head_commit.is_none() {
        return Err(SessionError::CommitUnreadable);
    }
    Ok(
        SessionWrites {
            start: if session.start.is_none() { Some(now) } else { None },
            branch: if need_branch { head_branch } else { None },
            commit: if need_commit { head_commit } else { None },
            last: now,
        },
    )
}

impl Session {
    /// The records of a project that was never active.
    pub fn new() -> (session: Session)
        ensures
            session@ == fresh_session(),
    {
        Session { start: None, last: None, branch: None, commit: None }
    }

    /// Takes over what an event wrote.
    pub fn record(&mut self, writes: SessionWrites)
        ensures
            final(self)@ == after_writes(old(self)@, writes@),
    {
        if writes.start.is_some() {
            self.start = writes.start;
        }
        if writes.branch.is_some() {
            self.branch = writes.branch;
        }
        if writes.commit.is_some() {
            self.commit = writes.commit;
        }
        self.last = Some(writes.last);
    }
}

/// The wall clock, in seconds since 1970.
///
/// Calls `chrono::Local::now` and `DateTime::timestamp`. Nothing is claimed
/// of the number: two calls may differ in either direction. `now` does not
/// return on a machine whose clock stands before 1970.
#[verifier::external_body]
fn current_timestamp() -> (now: i64) {
    chrono::Local::now().timestamp()
}

/// Decides what an event that happens now writes: [`session_writes`] at the
/// wall clock's time, which is the `last` of the writes returned.
pub fn write_beginning_meta_files(
    session: &Session,
    head_branch: Option<String>,
    head_commit: Option<String>,
) -> (outcome: Result<SessionWrites, SessionError>)
    ensures
        outcome is Err <==> identity_error(session@, text_of(head_branch), text_of(head_commit))
            is Some,
        outcome is Err ==> Some(outcome->Err_0) == identity_error(
            session@,
            text_of(head_branch),
            text_of(head_commit),
        ),
        outcome is Ok ==> outcome->Ok_0@ == writes_for(
            session@,
            (ActivityModel {
                now: outcome->Ok_0.last as int,
                head_branch: text_of(head_branch),
                head_commit: text_of(head_commit),
            }),
        ),
{
    let now = current_timestamp();
    session_writes(session, now, head_branch, head_commit)
}

} // verus!
