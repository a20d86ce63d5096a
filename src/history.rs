//! The edit operation log behind undo and redo.

use vstd::prelude::*;
use crate::document::Buffer;
use crate::text::{deleted, inserted};

verus! {

/// How many operations the log keeps; older ones are dropped.
pub const HISTORY_LIMIT: usize = 1000;

/// One reversible change to a document.
pub enum EditOp {
    /// `text` was put at `pos`.
    Insert { pos: usize, text: Vec<u8> },
    /// `text` was taken out from `pos` on.
    Delete { pos: usize, text: Vec<u8> },
}

/// The text after `op`.
pub open spec fn apply_op(t: Seq<u8>, op: EditOp) -> Seq<u8> {
    match op {
        EditOp::Insert { pos, text } => inserted(t, pos as int, text@),
        EditOp::Delete { pos, text } => deleted(t, pos as int, text@.len() as int),
    }
}

/// The text after taking `op` back.
pub open spec fn revert_op(t: Seq<u8>, op: EditOp) -> Seq<u8> {
    match op {
        EditOp::Insert { pos, text } => deleted(t, pos as int, text@.len() as int),
        EditOp::Delete { pos, text } => inserted(t, pos as int, text@),
    }
}

/// The length of the text after `op` fits a `usize`.
pub open spec fn fits_apply(t: Seq<u8>, op: EditOp) -> bool {
    match op {
        EditOp::Insert { text, .. } => t.len() + text@.len() <= usize::MAX,
        EditOp::Delete { .. } => true,
    }
}

/// The length of the text after taking `op` back fits a `usize`.
pub open spec fn fits_revert(t: Seq<u8>, op: EditOp) -> bool {
    match op {
        EditOp::Insert { .. } => true,
        EditOp::Delete { text, .. } => t.len() + text@.len() <= usize::MAX,
    }
}

/// `op` describes exactly what it did to `t`: an insertion inside the text,
/// or a deletion of the bytes that stood there.
pub open spec fn recorded(t: Seq<u8>, op: EditOp) -> bool {
    match op {
        EditOp::Insert { pos, .. } => pos <= t.len(),
        EditOp::Delete { pos, text } => pos + text@.len() <= t.len() && t.subrange(
            pos as int,
            pos + text@.len(),
        ) == text@,
    }
}

/// The text after each of `ops` in turn.
pub open spec fn replay(t: Seq<u8>, ops: Seq<EditOp>) -> Seq<u8>
    decreases ops.len(),
{
    if ops.len() == 0 {
        t
    } else {
        apply_op(replay(t, ops.drop_last()), ops.last())
    }
}

/// The text after taking back each of `ops`, the last first.
pub open spec fn rewind(t: Seq<u8>, ops: Seq<EditOp>) -> Seq<u8>
    decreases ops.len(),
{
    if ops.len() == 0 {
        t
    } else {
        rewind(revert_op(t, ops.last()), ops.drop_last())
    }
}

/// Each of `ops` describes exactly what it did, starting from `t`.
pub open spec fn all_recorded(t: Seq<u8>, ops: Seq<EditOp>) -> bool
    decreases ops.len(),
{
    ops.len() == 0 || (all_recorded(t, ops.drop_last()) && recorded(
        replay(t, ops.drop_last()),
        ops.last(),
    ))
}

/// Taking back an operation right after it restores the text.
pub proof fn lemma_revert_apply(t: Seq<u8>, op: EditOp)
    requires
        recorded(t, op),
    ensures
        revert_op(apply_op(t, op), op) == t,
{
    match op {
        EditOp::Insert { pos, text } => {
            let u = apply_op(t, op);
            assert(u == t.take(pos as int) + text@ + t.skip(pos as int));
            assert(revert_op(u, op) =~= t);
        },
        EditOp::Delete { pos, text } => {
            let u = apply_op(t, op);
            assert(u =~= t.take(pos as int) + t.skip(pos + text@.len()));
            assert(revert_op(u, op) =~= t);
        },
    }
}

/// Undoing every edit of a sequence, the last first, gives back the text it
/// started from; redoing them all after that gives the text it ended with.
pub proof fn lemma_undo_redo_all(t: Seq<u8>, ops: Seq<EditOp>)
    requires
        all_recorded(t, ops),
    ensures
        rewind(replay(t, ops), ops) == t,
        replay(rewind(replay(t, ops), ops), ops) == replay(t, ops),
    decreases ops.len(),
{
    if ops.len() > 0 {
        let init = ops.drop_last();
        lemma_undo_redo_all(t, init);
        lemma_revert_apply(replay(t, init), ops.last());
    }
}

/// The log after recording `op`: what could be redone is dropped, and the
/// oldest entry goes when the log is over its limit.
pub open spec fn after_push(entries: Seq<EditOp>, cursor: int, op: EditOp) -> Seq<EditOp> {
    let kept = entries.take(cursor).push(op);
    if kept.len() > HISTORY_LIMIT {
        kept.drop_first()
    } else {
        kept
    }
}

/// The log holds exact operations starting from `origin`, and the text is
/// `origin` with the first `cursor` of them done.
pub open spec fn consistent(origin: Seq<u8>, entries: Seq<EditOp>, cursor: int, t: Seq<u8>) -> bool {
    &&& all_recorded(origin, entries)
    &&& 0 <= cursor <= entries.len()
    &&& replay(origin, entries.take(cursor)) == t
}

/// Where the log starts once `op` is recorded: when the oldest entry is
/// dropped, the text that entry left behind.
pub open spec fn origin_after_push(
    origin: Seq<u8>,
    entries: Seq<EditOp>,
    cursor: int,
    op: EditOp,
) -> Seq<u8> {
    let kept = entries.take(cursor).push(op);
    if kept.len() > HISTORY_LIMIT {
        apply_op(origin, kept[0])
    } else {
        origin
    }
}

proof fn lemma_recorded_prefix(o: Seq<u8>, s: Seq<EditOp>, k: int)
    requires
        all_recorded(o, s),
        0 <= k <= s.len(),
    ensures
        all_recorded(o, s.take(k)),
        k < s.len() ==> recorded(replay(o, s.take(k)), s[k]),
    decreases s.len(),
{
    if k == s.len() {
        assert(s.take(k) =~= s);
    } else {
        let u = s.drop_last();
        assert(u.take(k) =~= s.take(k));
        if k < u.len() {
            lemma_recorded_prefix(o, u, k);
            assert(u[k] == s[k]);
        } else {
            assert(u =~= s.take(k));
            lemma_recorded_prefix(o, u, k);
        }
    }
}

proof fn lemma_drop_oldest(o: Seq<u8>, s: Seq<EditOp>)
    requires
        all_recorded(o, s),
        s.len() > 0,
    ensures
        all_recorded(apply_op(o, s[0]), s.drop_first()),
        replay(o, s) == replay(apply_op(o, s[0]), s.drop_first()),
    decreases s.len(),
{
    let o2 = apply_op(o, s[0]);
    if s.len() == 1 {
        assert(s.drop_last() =~= Seq::<EditOp>::empty());
        assert(s.drop_first() =~= Seq::<EditOp>::empty());
    } else {
        let u = s.drop_last();
        lemma_drop_oldest(o, u);
        assert(u[0] == s[0]);
        assert(s.drop_first().drop_last() =~= u.drop_first());
        assert(s.drop_first().last() == s.last());
    }
}

/// Recording an exact operation done on the text keeps the log consistent.
pub proof fn lemma_push_consistent(o: Seq<u8>, entries: Seq<EditOp>, cursor: int, t: Seq<u8>, op: EditOp)
    requires
        consistent(o, entries, cursor, t),
        recorded(t, op),
    ensures
        consistent(
            origin_after_push(o, entries, cursor, op),
            after_push(entries, cursor, op),
            after_push(entries, cursor, op).len() as int,
            apply_op(t, op),
        ),
{
    let kept = entries.take(cursor).push(op);
    lemma_recorded_prefix(o, entries, cursor);
    assert(kept.drop_last() =~= entries.take(cursor));
    assert(all_recorded(o, kept));
    assert(replay(o, kept) == apply_op(t, op));
    let after = after_push(entries, cursor, op);
    assert(after.take(after.len() as int) =~= after);
    if kept.len() > HISTORY_LIMIT {
        lemma_drop_oldest(o, kept);
    }
}

/// Undoing the last done operation keeps the log consistent.
pub proof fn lemma_undo_consistent(o: Seq<u8>, entries: Seq<EditOp>, cursor: int, t: Seq<u8>)
    requires
        consistent(o, entries, cursor, t),
        cursor > 0,
    ensures
        consistent(o, entries, cursor - 1, revert_op(t, entries[cursor - 1])),
{
    lemma_recorded_prefix(o, entries, cursor - 1);
    assert(entries.take(cursor).drop_last() =~= entries.take(cursor - 1));
    assert(entries.take(cursor).last() == entries[cursor - 1]);
    lemma_revert_apply(replay(o, entries.take(cursor - 1)), entries[cursor - 1]);
}

/// Redoing the first undone operation keeps the log consistent.
pub proof fn lemma_redo_consistent(o: Seq<u8>, entries: Seq<EditOp>, cursor: int, t: Seq<u8>)
    requires
        consistent(o, entries, cursor, t),
        cursor < entries.len(),
    ensures
        consistent(o, entries, cursor + 1, apply_op(t, entries[cursor])),
{
    assert(entries.take(cursor + 1).drop_last() =~= entries.take(cursor));
    assert(entries.take(cursor + 1).last() == entries[cursor]);
}

/// With a consistent log, undoing every done operation gives back the text
/// the log starts from, and redoing them all gives back the text.
pub proof fn lemma_undo_all_consistent(o: Seq<u8>, entries: Seq<EditOp>, cursor: int, t: Seq<u8>)
    requires
        consistent(o, entries, cursor, t),
    ensures
        rewind(t, entries.take(cursor)) == o,
        replay(rewind(t, entries.take(cursor)), entries.take(cursor)) == t,
{
    lemma_recorded_prefix(o, entries, cursor);
    lemma_undo_redo_all(o, entries.take(cursor));
}

/// The operations done, then those undone and ready to redo.
pub struct UndoHistory {
    ops: Vec<EditOp>,
    pos: usize,
}

impl UndoHistory {
    /// The operations in the log.
    pub closed spec fn entries(&self) -> Seq<EditOp> {
        self.ops@
    }

    /// How many of them are done; the rest can be redone.
    pub closed spec fn cursor(&self) -> int {
        self.pos as int
    }

    pub open spec fn wf(&self) -> bool {
        0 <= self.cursor() <= self.entries().len() <= HISTORY_LIMIT
    }

    pub fn new() -> (r: UndoHistory)
        ensures
            r.wf(),
            r.entries().len() == 0,
            r.cursor() == 0,
    {
        UndoHistory { ops: Vec::new(), pos: 0 }
    }

    pub fn len(&self) -> (r: usize)
        ensures
            r == self.entries().len(),
    {
        self.ops.len()
    }

    pub fn position(&self) -> (r: usize)
        ensures
            r == self.cursor(),
    {
        self.pos
    }

    /// Records `op`: what could be redone is dropped, and the oldest entry
    /// goes when the log is over its limit.
    pub fn push(&mut self, op: EditOp)
        requires
            old(self).wf(),
        ensures
            final(self).wf(),
            final(self).cursor() == final(self).entries().len(),
            final(self).entries() == after_push(old(self).entries(), old(self).cursor(), op),
    {
        self.ops.truncate(self.pos);
        self.ops.push(op);
        self.pos = self.pos + 1;
        if self.ops.len() > HISTORY_LIMIT {
            self.ops.remove(0);
            self.pos = self.pos - 1;
        }
        proof {
            let kept = old(self).entries().take(old(self).cursor()).push(op);
            if kept.len() > HISTORY_LIMIT {
                assert(self.ops@ =~= kept.drop_first());
            } else {
                assert(self.ops@ =~= kept);
            }
        }
    }

    /// Takes back the last done operation. Fails, changing nothing, when none
    /// is done (or the text would outgrow a `usize`).
    pub fn undo(&mut self, buffer: &mut Buffer) -> (r: bool)
        requires
            old(self).wf(),
            old(buffer).wf(),
        ensures
            final(self).wf(),
            final(buffer).wf(),
            final(self).entries() == old(self).entries(),
            r == (old(self).cursor() > 0 && fits_revert(
                old(buffer).bytes(),
                old(self).entries()[old(self).cursor() - 1],
            )),
            r ==> final(self).cursor() == old(self).cursor() - 1 && final(buffer).bytes()
                == revert_op(old(buffer).bytes(), old(self).entries()[old(self).cursor() - 1])
                && final(buffer).is_modified && final(buffer).path == old(buffer).path
                && final(buffer).language == old(buffer).language,
            !r ==> *final(self) == *old(self) && *final(buffer) == *old(buffer),
    {
        if self.pos == 0 {
            return false;
        }
        let i = self.pos - 1;
        match &self.ops[i] {
            EditOp::Insert { pos, text } => {
                buffer.delete(*pos, text.len());
            },
            EditOp::Delete { pos, text } => {
                if text.len() > usize::MAX - buffer.total_len() {
                    return false;
                }
                buffer.insert_bytes(*pos, text.as_slice());
            },
        }
        self.pos = i;
        true
    }

    /// Does again the first undone operation. Fails, changing nothing, when
    /// none is undone (or the text would outgrow a `usize`).
    pub fn redo(&mut self, buffer: &mut Buffer) -> (r: bool)
        requires
            old(self).wf(),
            old(buffer).wf(),
        ensures
            final(self).wf(),
            final(buffer).wf(),
            final(self).entries() == old(self).entries(),
            r == (old(self).cursor() < old(self).entries().len() && fits_apply(
                old(buffer).bytes(),
                old(self).entries()[old(self).cursor()],
            )),
            r ==> final(self).cursor() == old(self).cursor() + 1 && final(buffer).bytes()
                == apply_op(old(buffer).bytes(), old(self).entries()[old(self).cursor()])
                && final(buffer).is_modified && final(buffer).path == old(buffer).path
                && final(buffer).language == old(buffer).language,
            !r ==> *final(self) == *old(self) && *final(buffer) == *old(buffer),
    {
        if self.pos >= self.ops.len() {
            return false;
        }
        match &self.ops[self.pos] {
            EditOp::Insert { pos, text } => {
                if text.len() > usize::MAX - buffer.total_len() {
                    return false;
                }
                buffer.insert_bytes(*pos, text.as_slice());
            },
            EditOp::Delete { pos, text } => {
                buffer.delete(*pos, text.len());
            },
        }
        self.pos = self.pos + 1;
        true
    }

    /// Drops every entry.
    pub fn clear(&mut self)
        ensures
            final(self).wf(),
            final(self).entries().len() == 0,
            final(self).cursor() == 0,
    {
        self.ops.clear();
        self.pos = 0;
    }
}

} // verus!
