//! The mathematical model of a document's lines: where each line starts,
//! how long it is, and how byte offsets map to (line, column) pairs.

use vstd::prelude::*;

verus! {

/// The byte that ends a line.
pub open spec fn is_terminator(b: u8) -> bool {
    b == 10u8
}

/// The offsets just past each line terminator of `t`, in increasing order.
pub open spec fn breaks(t: Seq<u8>) -> Seq<int>
    decreases t.len(),
{
    if t.len() == 0 {
        Seq::empty()
    } else {
        let prev = breaks(t.drop_last());
        if is_terminator(t.last()) {
            prev.push(t.len() as int)
        } else {
            prev
        }
    }
}

/// The line index: offset 0, the start of every later line, and the total
/// length as a closing sentinel.
pub open spec fn line_index(t: Seq<u8>) -> Seq<int> {
    seq![0int] + breaks(t) + seq![t.len() as int]
}

/// The number of lines: one more than the number of terminators.
pub open spec fn line_count(t: Seq<u8>) -> int {
    line_index(t).len() - 1
}

/// How many terminators `t` holds.
pub open spec fn terminator_count(t: Seq<u8>) -> int {
    t.filter(|b: u8| is_terminator(b)).len() as int
}

/// Where line `l` starts.
pub open spec fn line_start(t: Seq<u8>, l: int) -> int {
    line_index(t)[l]
}

/// Where the text of line `l` ends: before its terminator, if it has one.
pub open spec fn line_end(t: Seq<u8>, l: int) -> int {
    let s = line_index(t)[l];
    let e = line_index(t)[l + 1];
    if e > s && is_terminator(t[e - 1]) {
        e - 1
    } else {
        e
    }
}

/// The bytes of line `l` without its terminator; empty when there is no such line.
pub open spec fn line_content(t: Seq<u8>, l: int) -> Seq<u8> {
    if 0 <= l < line_count(t) {
        t.subrange(line_start(t, l), line_end(t, l))
    } else {
        Seq::empty()
    }
}

/// The length of line `l` without its terminator.
pub open spec fn line_length(t: Seq<u8>, l: int) -> int {
    line_content(t, l).len() as int
}

pub open spec fn min_int(a: int, b: int) -> int {
    if a < b {
        a
    } else {
        b
    }
}

/// The line `l` clamped to the document: a line past the end is the last one.
pub open spec fn clamp_line(t: Seq<u8>, l: int) -> int {
    if l < 0 {
        0
    } else {
        min_int(l, line_count(t) - 1)
    }
}

/// The offset of (line, column): the line is clamped to the last one, and the
/// column to that line's length, so it never reaches into the next line.
pub open spec fn offset_of(t: Seq<u8>, l: int, c: int) -> int {
    let k = clamp_line(t, l);
    line_start(t, k) + min_int(c, line_length(t, k))
}

/// `(l, c)` is the position of offset `off`: `l` is the last line that starts
/// at or before `off`, and `c` is the distance from that start.
pub open spec fn is_line_col(t: Seq<u8>, off: int, l: int, c: int) -> bool {
    &&& 0 <= l < line_count(t)
    &&& line_start(t, l) <= off
    &&& l + 1 < line_count(t) ==> off < line_start(t, l + 1)
    &&& c == off - line_start(t, l)
}

/// A cursor position that lies inside the document.
pub open spec fn valid_cursor(t: Seq<u8>, l: int, c: int) -> bool {
    0 <= l < line_count(t) && 0 <= c <= line_length(t, l)
}

/// The cursor moved into the document: the line to the last one, the column
/// to that line's length.
pub open spec fn clamp_cursor_spec(t: Seq<u8>, l: int, c: int) -> (int, int) {
    let line = min_int(l, line_count(t) - 1);
    (line, min_int(c, line_length(t, line)))
}

proof fn lemma_breaks(t: Seq<u8>)
    ensures
        forall|k: int|
            0 <= k < breaks(t).len() ==> 1 <= #[trigger] breaks(t)[k] <= t.len() && is_terminator(
                t[breaks(t)[k] - 1],
            ),
        forall|j: int, k: int|
            0 <= j < k < breaks(t).len() ==> #[trigger] breaks(t)[j] < #[trigger] breaks(t)[k],
        breaks(t).len() == terminator_count(t),
        t.len() > 0 && is_terminator(t.last()) ==> breaks(t).len() > 0 && breaks(t).last()
            == t.len(),
    decreases t.len(),
{
    reveal(Seq::filter);
    if t.len() > 0 {
        let u = t.drop_last();
        lemma_breaks(u);
        assert forall|k: int| 0 <= k < breaks(u).len() implies t[breaks(u)[k] - 1] == u[breaks(u)[k]
            - 1] by {}
    }
}

/// Facts about the line index of any text.
pub proof fn lemma_line_index(t: Seq<u8>)
    ensures
        line_index(t).len() >= 2,
        line_count(t) >= 1,
        line_count(t) == terminator_count(t) + 1,
        line_index(t)[0] == 0,
        line_index(t)[line_count(t)] == t.len(),
        forall|i: int| 0 <= i < line_index(t).len() ==> 0 <= #[trigger] line_index(t)[i] <= t.len(),
        forall|i: int, j: int|
            0 <= i <= j < line_index(t).len() ==> #[trigger] line_index(t)[i] <= #[trigger] line_index(
                t,
            )[j],
        forall|i: int, j: int|
            0 <= i < j < line_count(t) ==> #[trigger] line_index(t)[i] < #[trigger] line_index(
                t,
            )[j],
        forall|i: int|
            1 <= i < line_count(t) ==> #[trigger] line_index(t)[i] >= 1 && is_terminator(
                t[line_index(t)[i] - 1],
            ),
{
    lemma_breaks(t);
    let b = breaks(t);
    let idx = line_index(t);
    assert forall|i: int| 0 <= i < idx.len() implies 0 <= #[trigger] idx[i] <= t.len() by {
        if 1 <= i < idx.len() - 1 {
            assert(idx[i] == b[i - 1]);
        }
    }
    assert forall|i: int, j: int| 0 <= i <= j < idx.len() implies #[trigger] idx[i] <= #[trigger] idx[j] by {
        if i < j {
            if i >= 1 && j < idx.len() - 1 {
                assert(idx[i] == b[i - 1] && idx[j] == b[j - 1]);
            } else if i >= 1 {
                assert(idx[i] == b[i - 1]);
            } else if j < idx.len() - 1 {
                assert(idx[j] == b[j - 1]);
            }
        }
    }
    assert forall|i: int, j: int| 0 <= i < j < line_count(t) implies #[trigger] idx[i] < #[trigger] idx[j] by {
        assert(idx[j] == b[j - 1]);
        if i >= 1 {
            assert(idx[i] == b[i - 1]);
        }
    }
    assert forall|i: int| 1 <= i < line_count(t) implies #[trigger] idx[i] >= 1 && is_terminator(
        t[idx[i] - 1],
    ) by {
        assert(idx[i] == b[i - 1]);
    }
}

/// A line before the last one ends with its terminator, which is not part of
/// its content; the last line never holds one.
pub proof fn lemma_line_shape(t: Seq<u8>, l: int)
    requires
        0 <= l < line_count(t),
    ensures
        0 <= line_start(t, l) <= line_end(t, l) <= line_index(t)[l + 1] <= t.len(),
        line_length(t, l) == line_end(t, l) - line_start(t, l),
        l + 1 < line_count(t) ==> line_end(t, l) == line_start(t, l + 1) - 1,
        l + 1 == line_count(t) ==> line_end(t, l) == t.len(),
{
    lemma_line_index(t);
    lemma_breaks(t);
    let idx = line_index(t);
    if l + 1 == line_count(t) {
        if idx[l + 1] > idx[l] && is_terminator(t[idx[l + 1] - 1]) {
            assert(t.last() == t[t.len() - 1]);
            assert(breaks(t).last() == idx[l]);
        }
    }
}

/// Going from a cursor position in the document to its offset and back
/// gives the same position; for column 0 the offset is the line's start.
/// The number of lines is the number of terminators plus one.
pub proof fn lemma_cursor_round_trip(t: Seq<u8>, l: int, c: int)
    requires
        valid_cursor(t, l, c),
    ensures
        is_line_col(t, offset_of(t, l, c), l, c),
        offset_of(t, l, 0) == line_start(t, l),
        line_count(t) == terminator_count(t) + 1,
{
    lemma_line_index(t);
    lemma_line_shape(t, l);
}

/// An offset has one (line, column) position.
pub proof fn lemma_line_col_unique(t: Seq<u8>, off: int, l1: int, c1: int, l2: int, c2: int)
    requires
        is_line_col(t, off, l1, c1),
        is_line_col(t, off, l2, c2),
    ensures
        l1 == l2 && c1 == c2,
{
    lemma_line_index(t);
    if l1 < l2 {
        assert(line_index(t)[l1 + 1] <= line_index(t)[l2]);
    } else if l2 < l1 {
        assert(line_index(t)[l2 + 1] <= line_index(t)[l1]);
    }
}

/// Clamping a cursor that lies in the document leaves it where it is, so
/// clamping twice is clamping once; clamping any cursor, such as one left on
/// a line that an edit took away, gives a position in the document.
pub proof fn lemma_clamp_cursor(t: Seq<u8>, l: int, c: int)
    requires
        l >= 0,
        c >= 0,
    ensures
        valid_cursor(t, l, c) ==> clamp_cursor_spec(t, l, c) == (l, c),
        valid_cursor(t, clamp_cursor_spec(t, l, c).0, clamp_cursor_spec(t, l, c).1),
        clamp_cursor_spec(t, clamp_cursor_spec(t, l, c).0, clamp_cursor_spec(t, l, c).1)
            == clamp_cursor_spec(t, l, c),
{
    lemma_line_index(t);
    let k = clamp_cursor_spec(t, l, c).0;
    lemma_line_shape(t, k);
}

} // verus!
