//! A text document: a base text and the journal of deltas replayed on it.

use vstd::prelude::*;
use vstd::string::*;
use crate::delta::{Delta, DeltaModel, journal_of, fits, applied, apply};
use crate::diff::{diff, diff_edits, lemma_diff_round_trip};

verus! {

/// The text after replaying `journal` over `base`, one delta after another.
pub open spec fn replayed(base: Seq<char>, journal: Seq<DeltaModel>) -> Seq<char>
    decreases journal.len(),
{
    if journal.len() == 0 {
        base
    } else {
        applied(journal.last(), replayed(base, journal.drop_last()))
    }
}

/// Whether every delta of `journal` fits the text that the deltas before it
/// give from `base`.
pub open spec fn replays(base: Seq<char>, journal: Seq<DeltaModel>) -> bool
    decreases journal.len(),
{
    journal.len() == 0 || (replays(base, journal.drop_last()) && fits(
        journal.last(),
        replayed(base, journal.drop_last()),
    ))
}

/// The mathematical form of a [`TextDocument`].
pub struct DocumentModel {
    /// The text the journal starts from.
    pub base: Seq<char>,
    /// The deltas recorded so far, oldest first.
    pub journal: Seq<DeltaModel>,
    /// The current text.
    pub text: Seq<char>,
}

impl DocumentModel {
    /// The round-trip invariant: the journal replays over the base, and gives
    /// the current text.
    pub open spec fn consistent(self) -> bool {
        replays(self.base, self.journal) && self.text == replayed(self.base, self.journal)
    }

    /// The document after a write of `content` at time `timestamp_ms`, and
    /// whether the write changed it: the same document if the text is already
    /// `content`, else one more delta, computed from the two texts.
    pub open spec fn updated(self, content: Seq<char>, timestamp_ms: nat) -> (DocumentModel, bool) {
        if self.text == content {
            (self, false)
        } else {
            (
                DocumentModel {
                    base: self.base,
                    journal: self.journal.push(
                        DeltaModel { operations: diff_edits(self.text, content), timestamp_ms },
                    ),
                    text: content,
                },
                true,
            )
        }
    }
}

/// The journal handed over does not replay: the delta at `index` does not fit
/// the text that the base and the deltas before it give.
#[derive(Debug, Clone, Copy, PartialEq, Eq)]
pub struct JournalMismatch {
    pub index: usize,
}

/// A base text with the deltas recorded on top of it, and the text they give.
pub struct TextDocument {
    base: Ghost<Seq<char>>,
    doc: String,
    deltas: Vec<Delta>,
}

impl View for TextDocument {
    type V = DocumentModel;

    closed spec fn view(&self) -> DocumentModel {
        DocumentModel { base: self.base@, journal: journal_of(self.deltas@), text: self.doc@ }
    }
}

/// Replaying a journal extended by one delta replays the journal, then that
/// delta.
pub proof fn lemma_replay_push(base: Seq<char>, journal: Seq<DeltaModel>, delta: DeltaModel)
    ensures
        replayed(base, journal.push(delta)) == applied(delta, replayed(base, journal)),
        replays(base, journal.push(delta)) == (replays(base, journal) && fits(
            delta,
            replayed(base, journal),
        )),
{
    assert(journal.push(delta).drop_last() =~= journal);
}

/// A journal that replays does so up to any point.
pub proof fn lemma_replays_prefix(base: Seq<char>, journal: Seq<DeltaModel>, n: int)
    requires
        0 <= n <= journal.len(),
        replays(base, journal),
    ensures
        replays(base, journal.take(n)),
    decreases journal.len(),
{
    if n == journal.len() {
        assert(journal.take(n) =~= journal);
    } else {
        lemma_replays_prefix(base, journal.drop_last(), n);
        assert(journal.drop_last().take(n) =~= journal.take(n));
    }
}

/// A write of the text that a document already holds changes nothing, so of
/// two writes of the same content in a row only the first can record a delta:
/// it does so exactly when the content differs from the text before it.
pub proof fn lemma_update_twice(
    doc: DocumentModel,
    content: Seq<char>,
    first_ms: nat,
    second_ms: nat,
)
    ensures
        doc.updated(content, first_ms).1 == (doc.text != content),
        doc.updated(content, first_ms).0.updated(content, second_ms).1 == false,
        doc.updated(content, first_ms).0.updated(content, second_ms).0 == doc.updated(
            content,
            first_ms,
        ).0,
{
}

/// A write keeps the round-trip invariant and leaves `content` as the text.
pub proof fn lemma_update_consistent(doc: DocumentModel, content: Seq<char>, timestamp_ms: nat)
    requires
        doc.consistent(),
    ensures
        doc.updated(content, timestamp_ms).0.consistent(),
        doc.updated(content, timestamp_ms).0.text == content,
        doc.updated(content, timestamp_ms).0.base == doc.base,
{
    if doc.text != content {
        let delta = DeltaModel { operations: diff_edits(doc.text, content), timestamp_ms };
        lemma_diff_round_trip(doc.text, content);
        lemma_replay_push(doc.base, doc.journal, delta);
    }
}

impl TextDocument {
    /// Every document keeps the round-trip invariant.
    #[verifier::type_invariant]
    spec fn round_trip(&self) -> bool {
        self@.consistent()
    }

    /// The round-trip invariant of this document.
    pub open spec fn well_formed(&self) -> bool {
        self@.consistent()
    }


    /// The document that `deltas` give when replayed over `value`.
    ///
    /// Fails when the journal does not belong to the text: at the first delta
    /// that does not fit what the ones before it gave.
    pub fn new(value: &str, deltas: Vec<Delta>) -> (made: Result<TextDocument, JournalMismatch>)
        ensures
            made is Ok <==> replays(value@, journal_of(deltas@)),
            made is Ok ==> made->Ok_0.well_formed() && made->Ok_0@ == (DocumentModel {
                base: value@,
                journal: journal_of(deltas@),
                text: replayed(value@, journal_of(deltas@)),
            }),
            made is Err ==> made->Err_0.index < deltas@.len() && replays(
                value@,
                journal_of(deltas@).take(made->Err_0.index as int),
            ) && !fits(
                deltas@[made->Err_0.index as int]@,
                replayed(value@, journal_of(deltas@).take(made->Err_0.index as int)),
            ),
    {
        let ghost journal = journal_of(deltas@);
        let mut doc: String = value.to_owned();
        let mut i: usize = 0;
        proof {
            assert(journal.take(0) =~= Seq::<DeltaModel>::empty());
        }
        while i < deltas.len()
            invariant
                i <= deltas.len(),
                journal == journal_of(deltas@),
                replays(value@, journal.take(i as int)),
                doc@ == replayed(value@, journal.take(i as int)),
            decreases deltas.len() - i,
        {
            proof {
                assert(journal.take(i + 1) =~= journal.take(i as int).push(journal[i as int]));
                lemma_replay_push(value@, journal.take(i as int), journal[i as int]);
                assert(journal[i as int] == deltas@[i as int]@);
            }
            if !deltas[i].fits_len(doc.as_str().unicode_len()) {
                proof {
                    if replays(value@, journal) {
                        lemma_replays_prefix(value@, journal, i + 1);
                    }
                }
                return Err(JournalMismatch { index: i });
            }
            doc = apply(&deltas[i], doc.as_str());
            i = i + 1;
        }
        proof {
            assert(journal.take(i as int) =~= journal);
        }
        Ok(TextDocument { base: Ghost(value@), doc, deltas })
    }

    /// The document that `deltas` give when replayed over the empty text.
    pub fn from_deltas(deltas: Vec<Delta>) -> (made: Result<TextDocument, JournalMismatch>)
        ensures
            made is Ok <==> replays(Seq::<char>::empty(), journal_of(deltas@)),
            made is Ok ==> made->Ok_0.well_formed() && made->Ok_0@ == (DocumentModel {
                base: Seq::<char>::empty(),
                journal: journal_of(deltas@),
                text: replayed(Seq::<char>::empty(), journal_of(deltas@)),
            }),
            made is Err ==> made->Err_0.index < deltas@.len() && replays(
                Seq::<char>::empty(),
                journal_of(deltas@).take(made->Err_0.index as int),
            ) && !fits(
                deltas@[made->Err_0.index as int]@,
                replayed(
                    Seq::<char>::empty(),
                    journal_of(deltas@).take(made->Err_0.index as int),
                ),
            ),
    {
        let empty = String::new();
        TextDocument::new(empty.as_str(), deltas)
    }

    /// Records a write of `value` at time `timestamp_ms`.
    ///
    /// Returns whether the text changed. If it did, exactly one delta was
    /// appended, and `value` is the text now.
    pub fn update(&mut self, value: &str, timestamp_ms: u128) -> (changed: bool)
        ensures
            (final(self)@, changed) == old(self)@.updated(value@, timestamp_ms as nat),
            final(self).well_formed(),
    {
        proof {
            use_type_invariant(&*self);
            lemma_update_consistent(self@, value@, timestamp_ms as nat);
        }
        if self.is_text(value) {
            return false;
        }
        let delta = diff(self.doc.as_str(), value, timestamp_ms);
        let ghost before = self.deltas@;
        let mut taken = TextDocument {
            base: Ghost(Seq::empty()),
            doc: String::new(),
            deltas: Vec::new(),
        };
        core::mem::swap(self, &mut taken);
        let TextDocument { base, doc: _, mut deltas } = taken;
        deltas.push(delta);
        proof {
            assert(journal_of(deltas@) =~= journal_of(before).push(delta@));
        }
        *self = TextDocument { base, doc: value.to_owned(), deltas };
        true
    }

    /// Whether `value` is the current text.
    pub fn is_text(&self, value: &str) -> (same: bool)
        ensures
            same == (self@.text == value@),
    {
        let other: String = value.to_owned();
        self.doc == other
    }

    /// The deltas recorded so far, oldest first.
    pub fn get_deltas(&self) -> (deltas: Vec<Delta>)
        ensures
            journal_of(deltas@) == self@.journal,
    {
        let mut deltas: Vec<Delta> = Vec::new();
        let mut i: usize = 0;
        while i < self.deltas.len()
            invariant
                i <= self.deltas.len(),
                deltas@.len() == i,
                journal_of(deltas@) == journal_of(self.deltas@).take(i as int),
            decreases self.deltas.len() - i,
        {
            let ghost before = deltas@;
            let copy = self.deltas[i].clone();
            deltas.push(copy);
            proof {
                assert forall|j: int| 0 <= j < i + 1 implies journal_of(deltas@)[j] == journal_of(
                    self.deltas@,
                )[j] by {
                    if j < i {
                        assert(journal_of(before)[j] == journal_of(self.deltas@).take(i as int)[j]);
                    }
                }
                assert(journal_of(deltas@) =~= journal_of(self.deltas@).take(i + 1));
            }
            i = i + 1;
        }
        proof {
            assert(journal_of(self.deltas@).take(i as int) =~= journal_of(self.deltas@));
        }
        deltas
    }

    /// The current text, which is what the journal gives from the base.
    pub fn to_string(&self) -> (text: String)
        ensures
            text@ == self@.text,
            self.well_formed(),
    {
        proof {
            use_type_invariant(self);
        }
        self.doc.clone()
    }
}

} // verus!
