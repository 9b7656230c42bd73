//! Text deltas: what one edit is, how it replays, and how one is computed
//! from two texts.

use vstd::prelude::*;
use vstd::string::*;

verus! {

/// One primitive step of an edit. Counts are in characters.
#[derive(Debug, PartialEq, Eq)]
pub enum Operation {
    /// Keep the next characters of the input.
    Retain(usize),
    /// Put this text into the output.
    Insert(String),
    /// Skip the next characters of the input.
    Delete(usize),
}

/// The mathematical form of an [`Operation`].
pub enum Edit {
    Retain(nat),
    Insert(Seq<char>),
    Delete(nat),
}

impl View for Operation {
    type V = Edit;

    open spec fn view(&self) -> Edit {
        match self {
            Operation::Retain(n) => Edit::Retain(*n as nat),
            Operation::Insert(s) => Edit::Insert(s@),
            Operation::Delete(n) => Edit::Delete(*n as nat),
        }
    }
}

impl Clone for Operation {
    fn clone(&self) -> (copy: Operation)
        ensures
            copy@ == self@,
    {
        match self {
            Operation::Retain(n) => Operation::Retain(*n),
            Operation::Insert(s) => Operation::Insert(s.clone()),
            Operation::Delete(n) => Operation::Delete(*n),
        }
    }
}

/// One atomic text edit: its operations in order, and when it was made.
#[derive(Debug, PartialEq, Eq)]
pub struct Delta {
    pub operations: Vec<Operation>,
    pub timestamp_ms: u128,
}

/// The mathematical form of a [`Delta`].
pub struct DeltaModel {
    pub operations: Seq<Edit>,
    pub timestamp_ms: nat,
}

/// The edits that a list of operations stands for.
pub open spec fn edits_of(ops: Seq<Operation>) -> Seq<Edit> {
    ops.map_values(|o: Operation| o@)
}

impl View for Delta {
    type V = DeltaModel;

    open spec fn view(&self) -> DeltaModel {
        DeltaModel {
            operations: edits_of(self.operations@),
            timestamp_ms: self.timestamp_ms as nat,
        }
    }
}

/// The deltas that a stored list stands for, in the same order.
pub open spec fn journal_of(deltas: Seq<Delta>) -> Seq<DeltaModel> {
    deltas.map_values(|d: Delta| d@)
}

/// How many input characters one edit passes over.
pub open spec fn edit_span(e: Edit) -> nat {
    match e {
        Edit::Retain(n) => n,
        Edit::Insert(_) => 0,
        Edit::Delete(n) => n,
    }
}

/// How many input characters a list of edits passes over.
pub open spec fn consumed(edits: Seq<Edit>) -> nat
    decreases edits.len(),
{
    if edits.len() == 0 {
        0
    } else {
        consumed(edits.drop_last()) + edit_span(edits.last())
    }
}

/// The text that a list of edits writes when it is replayed over `text`.
pub open spec fn produced(edits: Seq<Edit>, text: Seq<char>) -> Seq<char>
    decreases edits.len(),
{
    if edits.len() == 0 {
        Seq::empty()
    } else {
        let init = edits.drop_last();
        let at = consumed(init) as int;
        match edits.last() {
            Edit::Retain(n) => produced(init, text) + text.subrange(at, at + n),
            Edit::Insert(s) => produced(init, text) + s,
            Edit::Delete(_) => produced(init, text),
        }
    }
}

/// A delta fits a text when its retained and deleted counts add up to the
/// text's length.
pub open spec fn fits(delta: DeltaModel, text: Seq<char>) -> bool {
    consumed(delta.operations) == text.len()
}

/// The result of replaying `delta` over `text`.
pub open spec fn applied(delta: DeltaModel, text: Seq<char>) -> Seq<char> {
    produced(delta.operations, text)
}

/// Extending a list of edits by one adds that edit's span.
pub proof fn lemma_consumed_step(edits: Seq<Edit>, i: int)
    requires
        0 <= i < edits.len(),
    ensures
        consumed(edits.take(i + 1)) == consumed(edits.take(i)) + edit_span(edits[i]),
{
    assert(edits.take(i + 1).drop_last() =~= edits.take(i));
}

/// A prefix of a list of edits passes over no more than the whole list.
pub proof fn lemma_consumed_monotone(edits: Seq<Edit>, i: int)
    requires
        0 <= i <= edits.len(),
    ensures
        consumed(edits.take(i)) <= consumed(edits),
    decreases edits.len() - i,
{
    if i == edits.len() {
        assert(edits.take(i) =~= edits);
    } else {
        lemma_consumed_step(edits, i);
        lemma_consumed_monotone(edits, i + 1);
    }
}

impl Delta {
    /// A delta of the given operations, made at the given time.
    pub fn new(operations: Vec<Operation>, timestamp_ms: u128) -> (delta: Delta)
        ensures
            delta.operations == operations,
            delta.timestamp_ms == timestamp_ms,
    {
        Delta { operations, timestamp_ms }
    }

    /// Whether this delta can be replayed over a text of `len` characters.
    pub fn fits_len(&self, len: usize) -> (ok: bool)
        ensures
            ok == (consumed(self@.operations) == len),
    {
        let ghost edits = self@.operations;
        let mut total: usize = 0;
        let mut i: usize = 0;
        while i < self.operations.len()
            invariant
                i <= self.operations.len(),
                edits == edits_of(self.operations@),
                total == consumed(edits.take(i as int)),
                total <= len,
            decreases self.operations.len() - i,
        {
            let span: usize = match &self.operations[i] {
                Operation::Retain(n) => *n,
                Operation::Insert(_) => 0,
                Operation::Delete(n) => *n,
            };
            proof {
                lemma_consumed_step(edits, i as int);
                lemma_consumed_monotone(edits, i + 1);
                assert(edits[i as int] == self.operations@[i as int]@);
            }
            if span > len - total {
                return false;
            }
            total = total + span;
            i = i + 1;
        }
        proof {
            assert(edits.take(i as int) =~= edits);
        }
        total == len
    }
}

impl Clone for Delta {
    fn clone(&self) -> (copy: Delta)
        ensures
            copy@ == self@,
    {
        let mut operations: Vec<Operation> = Vec::new();
        let mut i: usize = 0;
        while i < self.operations.len()
            invariant
                i <= self.operations.len(),
                operations@.len() == i,
                edits_of(operations@) == edits_of(self.operations@).take(i as int),
            decreases self.operations.len() - i,
        {
            let ghost before = operations@;
            let op = self.operations[i].clone();
            operations.push(op);
            proof {
                assert forall|j: int| 0 <= j < i + 1 implies edits_of(operations@)[j]
                    == edits_of(self.operations@)[j] by {
                    if j < i {
                        assert(edits_of(before)[j] == edits_of(self.operations@).take(i as int)[j]);
                    }
                }
                assert(edits_of(operations@) =~= edits_of(self.operations@).take(i + 1));
            }
            i = i + 1;
        }
        proof {
            assert(edits_of(self.operations@).take(i as int) =~= edits_of(self.operations@));
        }
        Delta { operations, timestamp_ms: self.timestamp_ms }
    }
}

/// Replays `delta` over `text`.
///
/// The delta must fit the text: a delta made for another text is a broken
/// journal, and replaying it would invent content.
pub fn apply(delta: &Delta, text: &str) -> (out: String)
    requires
        fits(delta@, text@),
    ensures
        out@ == applied(delta@, text@),
{
    let ghost edits = delta@.operations;
    let text_len: usize = text.unicode_len();
    let mut out = String::new();
    let mut at: usize = 0;
    let mut i: usize = 0;
    while i < delta.operations.len()
        invariant
            i <= delta.operations.len(),
            edits == edits_of(delta.operations@),
            consumed(edits) == text@.len(),
            text_len == text@.len(),
            at == consumed(edits.take(i as int)),
            out@ == produced(edits.take(i as int), text@),
        decreases delta.operations.len() - i,
    {
        proof {
            lemma_consumed_step(edits, i as int);
            lemma_consumed_monotone(edits, i + 1);
            assert(edits.take(i + 1).drop_last() =~= edits.take(i as int));
            assert(edits[i as int] == delta.operations@[i as int]@);
        }
        match &delta.operations[i] {
            Operation::Retain(n) => {
                let piece = text.substring_char(at, at + *n);
                out.append(piece);
                at = at + *n;
            },
            Operation::Insert(s) => {
                out.append(s.as_str());
            },
            Operation::Delete(n) => {
                at = at + *n;
            },
        }
        i = i + 1;
    }
    proof {
        assert(edits.take(i as int) =~= edits);
    }
    out
}

/// Replays `delta` over `text` if it fits, and says so if it does not.
pub fn try_apply(delta: &Delta, text: &str) -> (out: Option<String>)
    ensures
        out is Some <==> fits(delta@, text@),
        out is Some ==> out->0@ == applied(delta@, text@),
{
    if delta.fits_len(text.unicode_len()) {
        Some(apply(delta, text))
    } else {
        None
    }
}

} // verus!
