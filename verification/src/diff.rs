//! Computing a delta from two texts: keep the common prefix and the common
//! suffix, replace what lies between.

use vstd::prelude::*;
use vstd::string::*;
use vstd::std_specs::iter::IteratorSpec;
use crate::delta::{Delta, Operation, Edit, consumed, produced, edit_span, edits_of, fits, applied, DeltaModel};

verus! {

/// The first position at or after `i` where `a` and `b` differ or one ends.
pub open spec fn prefix_from(a: Seq<char>, b: Seq<char>, i: nat) -> nat
    decreases a.len() - i,
{
    if i < a.len() && i < b.len() && a[i as int] == b[i as int] {
        prefix_from(a, b, i + 1)
    } else {
        i
    }
}

/// The length of the longest common prefix of `a` and `b`.
pub open spec fn common_prefix(a: Seq<char>, b: Seq<char>) -> nat {
    prefix_from(a, b, 0)
}

/// The character of `a` at offset `j` from its end.
pub open spec fn from_end(a: Seq<char>, j: int) -> char {
    a[a.len() - 1 - j]
}

/// Counting from the end, the first offset at or after `k` where `a` and `b`
/// differ, or `room` if they agree on all offsets below it.
pub open spec fn suffix_from(a: Seq<char>, b: Seq<char>, room: nat, k: nat) -> nat
    decreases room - k,
{
    if k < room && from_end(a, k as int) == from_end(b, k as int) {
        suffix_from(a, b, room, k + 1)
    } else {
        k
    }
}

/// The characters of the shorter text that lie behind the common prefix.
pub open spec fn suffix_room(a: Seq<char>, b: Seq<char>) -> nat {
    let shorter = if a.len() <= b.len() { a.len() } else { b.len() };
    if common_prefix(a, b) <= shorter { (shorter - common_prefix(a, b)) as nat } else { 0 }
}

/// The length of the longest common suffix of `a` and `b` that does not
/// overlap their common prefix.
pub open spec fn common_suffix(a: Seq<char>, b: Seq<char>) -> nat {
    suffix_from(a, b, suffix_room(a, b), 0)
}

/// An edit that changes nothing: it keeps, skips or inserts no character.
pub open spec fn is_idle(e: Edit) -> bool {
    match e {
        Edit::Retain(n) => n == 0,
        Edit::Insert(s) => s.len() == 0,
        Edit::Delete(n) => n == 0,
    }
}

/// `edits` followed by `e`, unless `e` changes nothing.
pub open spec fn push_active(edits: Seq<Edit>, e: Edit) -> Seq<Edit> {
    if is_idle(e) { edits } else { edits.push(e) }
}

/// The edits that turn `a` into `b`: retain the common prefix, delete the
/// middle of `a`, insert the middle of `b`, retain the common suffix; a part
/// that would be empty is left out.
pub open spec fn diff_edits(a: Seq<char>, b: Seq<char>) -> Seq<Edit> {
    let p = common_prefix(a, b);
    let s = common_suffix(a, b);
    let kept = push_active(Seq::empty(), Edit::Retain(p));
    let cut = push_active(kept, Edit::Delete((a.len() - p - s) as nat));
    let filled = push_active(cut, Edit::Insert(b.subrange(p as int, b.len() - s)));
    push_active(filled, Edit::Retain(s))
}

/// From position `i` on, `prefix_from` stays within both texts and they agree
/// on everything before it.
pub proof fn lemma_prefix_from(a: Seq<char>, b: Seq<char>, i: nat)
    requires
        i <= a.len(),
        i <= b.len(),
        forall|j: int| 0 <= j < i ==> a[j] == b[j],
    ensures
        i <= prefix_from(a, b, i) <= a.len(),
        prefix_from(a, b, i) <= b.len(),
        forall|j: int| 0 <= j < prefix_from(a, b, i) ==> a[j] == b[j],
    decreases a.len() - i,
{
    if i < a.len() && i < b.len() && a[i as int] == b[i as int] {
        lemma_prefix_from(a, b, i + 1);
    }
}

/// From offset `k` on, `suffix_from` stays within `room` and the texts agree
/// on every offset from the end below it.
pub proof fn lemma_suffix_from(a: Seq<char>, b: Seq<char>, room: nat, k: nat)
    requires
        k <= room,
        room <= a.len(),
        room <= b.len(),
        forall|j: int| 0 <= j < k ==> #[trigger] from_end(a, j) == from_end(b, j),
    ensures
        k <= suffix_from(a, b, room, k) <= room,
        forall|j: int|
            0 <= j < suffix_from(a, b, room, k) ==> #[trigger] from_end(a, j) == from_end(b, j),
    decreases room - k,
{
    if k < room && from_end(a, k as int) == from_end(b, k as int) {
        lemma_suffix_from(a, b, room, k + 1);
    }
}

/// Appending an edit that is left out when idle moves the replay exactly as
/// appending it always would.
pub proof fn lemma_push_active(edits: Seq<Edit>, e: Edit, text: Seq<char>)
    requires
        consumed(edits) + edit_span(e) <= text.len(),
    ensures
        consumed(push_active(edits, e)) == consumed(edits) + edit_span(e),
        produced(push_active(edits, e), text) == (match e {
            Edit::Retain(n) => produced(edits, text) + text.subrange(
                consumed(edits) as int,
                (consumed(edits) + n) as int,
            ),
            Edit::Insert(s) => produced(edits, text) + s,
            Edit::Delete(_) => produced(edits, text),
        }),
{
    let at = consumed(edits) as int;
    if is_idle(e) {
        match e {
            Edit::Retain(n) => {
                assert(produced(edits, text) + text.subrange(at, at + n) =~= produced(edits, text));
            },
            Edit::Insert(s) => {
                assert(produced(edits, text) + s =~= produced(edits, text));
            },
            Edit::Delete(_) => {},
        }
    } else {
        assert(edits.push(e).drop_last() =~= edits);
    }
}

/// Round trip: the edits computed for `(a, b)` fit `a`, and replayed over `a`
/// they give `b`.
pub proof fn lemma_diff_round_trip(a: Seq<char>, b: Seq<char>)
    ensures
        consumed(diff_edits(a, b)) == a.len(),
        produced(diff_edits(a, b), a) == b,
{
    let p = common_prefix(a, b);
    lemma_prefix_from(a, b, 0);
    let room = suffix_room(a, b);
    let s = common_suffix(a, b);
    lemma_suffix_from(a, b, room, 0);
    let cut_len = (a.len() - p - s) as nat;
    let middle = b.subrange(p as int, b.len() - s);
    let e0 = Seq::<Edit>::empty();
    let e1 = push_active(e0, Edit::Retain(p));
    let e2 = push_active(e1, Edit::Delete(cut_len));
    let e3 = push_active(e2, Edit::Insert(middle));
    let e4 = push_active(e3, Edit::Retain(s));
    lemma_push_active(e0, Edit::Retain(p), a);
    lemma_push_active(e1, Edit::Delete(cut_len), a);
    lemma_push_active(e2, Edit::Insert(middle), a);
    lemma_push_active(e3, Edit::Retain(s), a);
    assert(produced(e0, a) =~= Seq::<char>::empty());
    let head = a.subrange(0, p as int);
    let tail = a.subrange(a.len() - s, a.len() as int);
    assert(produced(e4, a) =~= head + middle + tail);
    let tail_b = b.subrange(b.len() - s, b.len() as int);
    assert forall|i: int| 0 <= i < s implies #[trigger] tail[i] == tail_b[i] by {
        assert(from_end(a, s - 1 - i) == from_end(b, s - 1 - i));
    }
    assert(tail =~= tail_b);
    assert(head =~= b.subrange(0, p as int));
    assert(head + middle + tail =~= b);
}

/// Round trip, stated for deltas: whatever the time stamp, a delta whose
/// operations are those computed for `(a, b)` fits `a` and applies to `b`.
pub proof fn lemma_apply_diff(a: Seq<char>, b: Seq<char>, delta: DeltaModel)
    requires
        delta.operations == diff_edits(a, b),
    ensures
        fits(delta, a),
        applied(delta, a) == b,
{
    lemma_diff_round_trip(a, b);
}

/// The characters of a text, one by one.
pub fn chars_of(text: &str) -> (chars: Vec<char>)
    ensures
        chars@ == text@,
{
    broadcast use {axiom_spec_iter, next_postcondition};

    let mut rest = text.chars();
    let mut chars: Vec<char> = Vec::new();
    loop
        invariant
            rest.obeys_prophetic_iter_laws(),
            chars@ + rest.remaining() == text@,
        ensures
            chars@ == text@,
        decreases text@.len() - chars@.len(),
    {
        let ghost before = rest.remaining();
        match rest.next() {
            Some(c) => {
                chars.push(c);
                proof {
                    assert(chars@ + rest.remaining() =~= text@);
                }
            },
            None => {
                proof {
                    assert(chars@ + before =~= chars@);
                }
                break ;
            },
        }
    }
    chars
}

/// The length of the longest common prefix of two texts.
pub fn common_prefix_len(a: &Vec<char>, b: &Vec<char>) -> (p: usize)
    ensures
        p == common_prefix(a@, b@),
{
    let mut i: usize = 0;
    while i < a.len() && i < b.len() && a[i] == b[i]
        invariant
            i <= a.len(),
            i <= b.len(),
            prefix_from(a@, b@, i as nat) == common_prefix(a@, b@),
        decreases a.len() - i,
    {
        i = i + 1;
    }
    i
}

/// The length of the longest common suffix of two texts that stays clear of
/// their first `p` characters.
pub fn common_suffix_len(a: &Vec<char>, b: &Vec<char>, p: usize) -> (s: usize)
    requires
        p == common_prefix(a@, b@),
    ensures
        s == common_suffix(a@, b@),
{
    proof {
        lemma_prefix_from(a@, b@, 0);
    }
    let shorter: usize = if a.len() <= b.len() { a.len() } else { b.len() };
    let room: usize = shorter - p;
    let mut k: usize = 0;
    while k < room && a[a.len() - 1 - k] == b[b.len() - 1 - k]
        invariant
            k <= room,
            room == suffix_room(a@, b@),
            room <= a.len(),
            room <= b.len(),
            suffix_from(a@, b@, room as nat, k as nat) == common_suffix(a@, b@),
        decreases room - k,
    {
        k = k + 1;
    }
    k
}

/// The delta that turns `old_text` into `new_text`, stamped `timestamp_ms`.
///
/// It keeps the longest common prefix and suffix and replaces the middle, so
/// it fits `old_text` and applies to `new_text`: see
/// [`lemma_diff_round_trip`].
pub fn diff(old_text: &str, new_text: &str, timestamp_ms: u128) -> (delta: Delta)
    ensures
        delta@.operations == diff_edits(old_text@, new_text@),
        delta@.timestamp_ms == timestamp_ms,
        fits(delta@, old_text@),
        applied(delta@, old_text@) == new_text@,
{
    let a = chars_of(old_text);
    let b = chars_of(new_text);
    let p = common_prefix_len(&a, &b);
    let s = common_suffix_len(&a, &b, p);
    proof {
        lemma_prefix_from(a@, b@, 0);
        lemma_suffix_from(a@, b@, suffix_room(a@, b@), 0);
        lemma_diff_round_trip(a@, b@);
    }
    let cut: usize = a.len() - p - s;
    let middle = new_text.substring_char(p, b.len() - s);
    let mut operations: Vec<Operation> = Vec::new();
    let ghost e0 = Seq::<Edit>::empty();
    proof {
        assert(edits_of(operations@) =~= e0);
    }
    if p > 0 {
        let ghost before = operations@;
        operations.push(Operation::Retain(p));
        proof {
            assert(edits_of(operations@) =~= edits_of(before).push(Edit::Retain(p as nat)));
        }
    }
    let ghost e1 = push_active(e0, Edit::Retain(p as nat));
    assert(edits_of(operations@) == e1);
    if cut > 0 {
        let ghost before = operations@;
        operations.push(Operation::Delete(cut));
        proof {
            assert(edits_of(operations@) =~= edits_of(before).push(Edit::Delete(cut as nat)));
        }
    }
    let ghost e2 = push_active(e1, Edit::Delete(cut as nat));
    assert(edits_of(operations@) == e2);
    if middle.unicode_len() > 0 {
        let ghost before = operations@;
        operations.push(Operation::Insert(middle.to_owned()));
        proof {
            assert(edits_of(operations@) =~= edits_of(before).push(Edit::Insert(middle@)));
        }
    }
    let ghost e3 = push_active(e2, Edit::Insert(middle@));
    assert(edits_of(operations@) == e3);
    if s > 0 {
        let ghost before = operations@;
        operations.push(Operation::Retain(s));
        proof {
            assert(edits_of(operations@) =~= edits_of(before).push(Edit::Retain(s as nat)));
        }
    }
    Delta { operations, timestamp_ms }
}

} // verus!
