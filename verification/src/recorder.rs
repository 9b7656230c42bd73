//! The rules that turn one file-write event into journal entries.

use vstd::prelude::*;
use vstd::string::*;
use crate::delta::{Delta, DeltaModel, journal_of, fits, applied};
use crate::diff::{diff_edits, lemma_diff_round_trip};
use crate::document::{TextDocument, DocumentModel, JournalMismatch, replayed, replays};

verus! {

/// Whether an event is worth recording: its target is an existing regular
/// file, and the ignore rules are known not to exclude it. An answer that
/// could not be had counts as excluded.
pub fn should_capture(is_file: bool, ignored: Option<bool>) -> (capture: bool)
    ensures
        capture == (is_file && ignored == Some(false)),
{
    if !is_file {
        return false;
    }
    match ignored {
        Some(excluded) => !excluded,
        None => false,
    }
}

/// The commit whose tree holds the base texts: the one the working pointer
/// names if there is one, else the head's.
pub fn get_meta_commit(current: Option<String>, head: Option<String>) -> (commit: Option<String>)
    ensures
        commit == (if current is Some { current } else { head }),
{
    match current {
        Some(id) => Some(id),
        None => head,
    }
}

/// The text a document starts from: the committed content, or nothing.
pub open spec fn starting_text(base: Option<Seq<char>>) -> Seq<char> {
    match base {
        Some(text) => text,
        None => Seq::empty(),
    }
}

/// The journal a document starts with: the stored deltas, or none.
pub open spec fn starting_journal(prior: Option<Seq<DeltaModel>>) -> Seq<DeltaModel> {
    match prior {
        Some(journal) => journal,
        None => Seq::empty(),
    }
}

/// The text of the document rebuilt from what is committed and what is
/// stored.
pub open spec fn reconstructed_text(
    base: Option<Seq<char>>,
    prior: Option<Seq<DeltaModel>>,
) -> Seq<char> {
    replayed(starting_text(base), starting_journal(prior))
}

/// The view of an optional text.
pub open spec fn text_view(base: Option<&str>) -> Option<Seq<char>> {
    match base {
        Some(text) => Some(text@),
        None => None,
    }
}

/// The view of an optional stored journal.
pub open spec fn journal_view(prior: Option<Vec<Delta>>) -> Option<Seq<DeltaModel>> {
    match prior {
        Some(deltas) => Some(journal_of(deltas@)),
        None => None,
    }
}

/// The four starting states: with both a base and a journal the text is the
/// journal replayed over the base; with a base alone it is the base; with a
/// journal alone it is the journal replayed over the empty text; with neither
/// it is empty.
pub proof fn lemma_four_cases(base: Seq<char>, journal: Seq<DeltaModel>)
    ensures
        reconstructed_text(Some(base), Some(journal)) == replayed(base, journal),
        reconstructed_text(Some(base), None) == base,
        reconstructed_text(None, Some(journal)) == replayed(Seq::empty(), journal),
        reconstructed_text(None, None) == Seq::<char>::empty(),
{
}

/// Rebuilds a file's document from its committed content, if it has any, and
/// its stored deltas, if it has any.
pub fn reconstruct(base: Option<&str>, prior: Option<Vec<Delta>>) -> (made: Result<
    TextDocument,
    JournalMismatch,
>)
    ensures
        made is Ok <==> replays(starting_text(text_view(base)), starting_journal(journal_view(prior))),
        made is Ok ==> made->Ok_0.well_formed() && made->Ok_0@ == (DocumentModel {
            base: starting_text(text_view(base)),
            journal: starting_journal(journal_view(prior)),
            text: reconstructed_text(text_view(base), journal_view(prior)),
        }),
        made is Err ==> made->Err_0.index < starting_journal(journal_view(prior)).len() && replays(
            starting_text(text_view(base)),
            starting_journal(journal_view(prior)).take(made->Err_0.index as int),
        ) && !fits(
            starting_journal(journal_view(prior))[made->Err_0.index as int],
            replayed(
                starting_text(text_view(base)),
                starting_journal(journal_view(prior)).take(made->Err_0.index as int),
            ),
        ),
{
    let none: Vec<Delta> = Vec::new();
    proof {
        assert(journal_of(none@) =~= Seq::<DeltaModel>::empty());
    }
    match (base, prior) {
        (Some(contents), Some(deltas)) => TextDocument::new(contents, deltas),
        (Some(contents), None) => TextDocument::new(contents, none),
        (None, Some(deltas)) => TextDocument::from_deltas(deltas),
        (None, None) => TextDocument::from_deltas(none),
    }
}

/// What one recorded write leaves behind.
#[derive(Debug, PartialEq, Eq)]
pub struct Recorded {
    /// The file's whole journal, to be stored in place of the one before.
    pub journal: Vec<Delta>,
    /// The deltas that this write added, to be announced.
    pub fresh: Vec<Delta>,
}

/// The edits of the one delta that a write of `contents` adds to a document
/// whose text is `text`.
pub open spec fn fresh_delta(text: Seq<char>, contents: Seq<char>, timestamp_ms: nat) -> DeltaModel {
    DeltaModel { operations: diff_edits(text, contents), timestamp_ms }
}

/// Records a write of `contents`, made at `timestamp_ms`, to a file whose
/// committed content is `base` and whose stored deltas are `prior`.
///
/// Nothing is recorded when the contents are what the journal already gives.
/// Otherwise the journal grows by exactly one delta, which takes the text
/// before the write to `contents`.
pub fn register_file_change(
    base: Option<&str>,
    prior: Option<Vec<Delta>>,
    contents: &str,
    timestamp_ms: u128,
) -> (outcome: Result<Option<Recorded>, JournalMismatch>)
    ensures
        outcome is Ok <==> replays(
            starting_text(text_view(base)),
            starting_journal(journal_view(prior)),
        ),
        outcome is Ok ==> (outcome->Ok_0 is None <==> reconstructed_text(
            text_view(base),
            journal_view(prior),
        ) == contents@),
        outcome is Ok && outcome->Ok_0 is Some ==> ({
            let recorded = outcome->Ok_0->0;
            let before = starting_journal(journal_view(prior));
            let text = reconstructed_text(text_view(base), journal_view(prior));
            let added = fresh_delta(text, contents@, timestamp_ms as nat);
            &&& journal_of(recorded.journal@) == before.push(added)
            &&& journal_of(recorded.fresh@) == seq![added]
            &&& fits(added, text)
            &&& applied(added, text) == contents@
            &&& replays(starting_text(text_view(base)), journal_of(recorded.journal@))
            &&& replayed(starting_text(text_view(base)), journal_of(recorded.journal@))
                == contents@
        }),
        outcome is Err ==> outcome->Err_0.index < starting_journal(journal_view(prior)).len()
            && replays(
            starting_text(text_view(base)),
            starting_journal(journal_view(prior)).take(outcome->Err_0.index as int),
        ) && !fits(
            starting_journal(journal_view(prior))[outcome->Err_0.index as int],
            replayed(
                starting_text(text_view(base)),
                starting_journal(journal_view(prior)).take(outcome->Err_0.index as int),
            ),
        ),
{
    let mut document = match reconstruct(base, prior) {
        Ok(document) => document,
        Err(mismatch) => {
            return Err(mismatch);
        },
    };
    let ghost text = document@.text;
    if !document.update(contents, timestamp_ms) {
        return Ok(None);
    }
    proof {
        lemma_diff_round_trip(text, contents@);
    }
    let journal = document.get_deltas();
    let last = journal[journal.len() - 1].clone();
    let mut fresh: Vec<Delta> = Vec::new();
    fresh.push(last);
    proof {
        let added = fresh_delta(text, contents@, timestamp_ms as nat);
        assert(journal_of(journal@)[journal@.len() - 1] == journal@[journal@.len() - 1]@);
        assert(journal_of(fresh@) =~= seq![added]);
    }
    Ok(Some(Recorded { journal, fresh }))
}

/// What is announced after a recorded write.
#[derive(Debug, PartialEq, Eq)]
pub struct DeltasEvent {
    pub project_id: String,
    pub file_path: String,
    pub deltas: Vec<Delta>,
}

/// The name under which a project's deltas are announced.
pub fn event_name(project_id: &str) -> (name: String)
    ensures
        name@ == "deltas://"@ + project_id@,
{
    let mut name: String = "deltas://".to_owned();
    name.append(project_id);
    name
}

/// The announcement of a recorded write: the project, the file's path below
/// the project's root, and the deltas that the write added, in order.
pub fn deltas_event(project_id: &str, relative_path: &str, recorded: Recorded) -> (event:
    DeltasEvent)
    ensures
        event.project_id@ == project_id@,
        event.file_path@ == relative_path@,
        event.deltas == recorded.fresh,
{
    DeltasEvent {
        project_id: project_id.to_owned(),
        file_path: relative_path.to_owned(),
        deltas: recorded.fresh,
    }
}

} // verus!
