//! The byte store: a gap buffer that keeps its line index up to date.

use vstd::prelude::*;
use vstd::string::StringSliceAdditionalSpecFns;
use vstd::utf8::{decode_utf8, valid_utf8};
use crate::line_index::{
    breaks, is_line_col, lemma_line_index, lemma_line_shape, line_content, line_count, line_end,
    line_index, line_length, line_start, offset_of,
};
use crate::text::{clamp_to, decode_lossy, deleted, inserted, lossy_text, range_of};

verus! {

/// The offsets of a cache, read as integers.
pub open spec fn ints(v: Seq<usize>) -> Seq<int> {
    v.map_values(|x: usize| x as int)
}

/// Line `l` as `str::lines` gives it: without its terminator, and without a
/// carriage return that stood right before that terminator.
pub open spec fn shown_line(t: Seq<u8>, l: int) -> Seq<u8> {
    let c = line_content(t, l);
    if l + 1 < line_count(t) && c.len() > 0 && c.last() == 13u8 {
        c.drop_last()
    } else {
        c
    }
}

/// How many lines `str::lines` yields: an empty last line is not one.
pub open spec fn shown_line_count(t: Seq<u8>) -> int {
    if line_content(t, line_count(t) - 1).len() == 0 {
        line_count(t) - 1
    } else {
        line_count(t)
    }
}

/// A document held as two byte runs around a gap, with the start of every line.
#[derive(Clone)]
pub struct GapBuffer {
    before: Vec<u8>,
    after: Vec<u8>,
    line_offsets: Vec<usize>,
}

impl View for GapBuffer {
    type V = Seq<u8>;

    closed spec fn view(&self) -> Seq<u8> {
        self.before@ + self.after@
    }
}

impl GapBuffer {
    /// Where the gap stands.
    pub closed spec fn gap(&self) -> int {
        self.before@.len() as int
    }

    /// The length fits a `usize` and the line cache matches the text.
    pub closed spec fn wf(&self) -> bool {
        &&& self.before@.len() + self.after@.len() <= usize::MAX
        &&& ints(self.line_offsets@) == line_index(self@)
    }

    pub fn new() -> (r: GapBuffer)
        ensures
            r.wf(),
            r@ == Seq::<u8>::empty(),
    {
        let mut line_offsets: Vec<usize> = Vec::new();
        line_offsets.push(0);
        line_offsets.push(0);
        let r = GapBuffer { before: Vec::new(), after: Vec::new(), line_offsets };
        proof {
            assert(r@ =~= Seq::<u8>::empty());
            assert(breaks(r@) =~= Seq::<int>::empty());
            assert(ints(r.line_offsets@) =~= line_index(r@));
        }
        r
    }

    /// Rescans the whole text for line starts.
    fn build_cache(&mut self)
        requires
            old(self).before@.len() + old(self).after@.len() <= usize::MAX,
        ensures
            final(self).wf(),
            final(self)@ == old(self)@,
            final(self).gap() == old(self).gap(),
    {
        let ghost t = self@;
        self.line_offsets.clear();
        self.line_offsets.push(0);
        let blen = self.before.len();
        let alen = self.after.len();
        proof {
            assert(t.take(0) =~= Seq::<u8>::empty());
            assert(ints(self.line_offsets@) =~= seq![0int] + breaks(t.take(0)));
        }
        let mut i: usize = 0;
        while i < blen
            invariant
                self@ == t,
                blen == self.before@.len(),
                alen == self.after@.len(),
                blen + alen <= usize::MAX,
                i <= blen,
                ints(self.line_offsets@) == seq![0int] + breaks(t.take(i as int)),
            decreases blen - i,
        {
            let byte = self.before[i];
            proof {
                assert(t.take(i + 1).drop_last() =~= t.take(i as int));
                assert(t.take(i + 1).last() == byte);
            }
            if byte == 10u8 {
                let ghost prev = self.line_offsets@;
                self.line_offsets.push(i + 1);
                proof {
                    assert(ints(self.line_offsets@) =~= ints(prev).push(i + 1));
                    assert(ints(self.line_offsets@) =~= seq![0int] + breaks(t.take(i + 1)));
                }
            }
            i = i + 1;
        }
        let mut j: usize = 0;
        while j < alen
            invariant
                self@ == t,
                blen == self.before@.len(),
                alen == self.after@.len(),
                blen + alen <= usize::MAX,
                j <= alen,
                ints(self.line_offsets@) == seq![0int] + breaks(t.take(blen + j)),
            decreases alen - j,
        {
            let byte = self.after[j];
            proof {
                assert(t.take(blen + j + 1).drop_last() =~= t.take(blen + j));
                assert(t.take(blen + j + 1).last() == byte);
            }
            if byte == 10u8 {
                let ghost prev = self.line_offsets@;
                self.line_offsets.push(blen + j + 1);
                proof {
                    assert(ints(self.line_offsets@) =~= ints(prev).push(blen + j + 1));
                    assert(ints(self.line_offsets@) =~= seq![0int] + breaks(t.take(blen + j + 1)));
                }
            }
            j = j + 1;
        }
        self.line_offsets.push(blen + alen);
        proof {
            assert(t.take(blen + alen) =~= t);
            assert(ints(self.line_offsets@) =~= line_index(t));
        }
    }

    /// A buffer that holds `bytes`.
    pub fn from_bytes(bytes: Vec<u8>) -> (r: GapBuffer)
        ensures
            r.wf(),
            r@ == bytes@,
    {
        let len = bytes.len();
        proof {
            assert(len == bytes@.len());
        }
        let mut r = GapBuffer { before: bytes, after: Vec::new(), line_offsets: Vec::new() };
        proof {
            assert(r@ =~= bytes@);
        }
        r.build_cache();
        r
    }

    /// A buffer that holds the bytes of `s`.
    pub fn from_string(s: &str) -> (r: GapBuffer)
        ensures
            r.wf(),
            r@ == s.spec_bytes(),
    {
        let bytes = s.as_bytes();
        let mut before: Vec<u8> = Vec::new();
        let mut i: usize = 0;
        while i < bytes.len()
            invariant
                i <= bytes@.len(),
                before@ == bytes@.take(i as int),
            decreases bytes@.len() - i,
        {
            before.push(bytes[i]);
            i = i + 1;
            proof {
                assert(before@ =~= bytes@.take(i as int));
            }
        }
        proof {
            assert(before@ =~= bytes@);
        }
        let mut r = GapBuffer { before, after: Vec::new(), line_offsets: Vec::new() };
        proof {
            assert(r@ =~= bytes@);
        }
        r.build_cache();
        r
    }

    pub fn len(&self) -> (r: usize)
        requires
            self.wf(),
        ensures
            r == self@.len(),
    {
        self.before.len() + self.after.len()
    }

    pub fn is_empty(&self) -> (r: bool)
        requires
            self.wf(),
        ensures
            r == (self@.len() == 0),
    {
        self.len() == 0
    }

    /// The byte at `i`.
    pub fn byte_at(&self, i: usize) -> (r: u8)
        requires
            self.wf(),
            i < self@.len(),
        ensures
            r == self@[i as int],
    {
        if i < self.before.len() {
            self.before[i]
        } else {
            self.after[i - self.before.len()]
        }
    }

    /// The bytes of `[start, end)`, clamped to the text, stitched across the gap.
    pub fn range_bytes(&self, start: usize, end: usize) -> (r: Vec<u8>)
        requires
            self.wf(),
        ensures
            r@ == range_of(self@, start as int, end as int),
    {
        let total = self.len();
        let s = if start < total { start } else { total };
        let e = if end < total { end } else { total };
        let mut out: Vec<u8> = Vec::new();
        if s >= e {
            proof {
                assert(out@ =~= range_of(self@, start as int, end as int));
            }
            return out;
        }
        let mut i: usize = s;
        while i < e
            invariant
                self.wf(),
                s <= i <= e,
                e <= self@.len(),
                out@ == self@.subrange(s as int, i as int),
            decreases e - i,
        {
            let b = self.byte_at(i);
            out.push(b);
            i = i + 1;
            proof {
                assert(out@ =~= self@.subrange(s as int, i as int));
            }
        }
        out
    }

    /// The text of `[start, end)`, clamped to the text and decoded as a whole.
    pub fn get_range(&self, start: usize, end: usize) -> (r: String)
        requires
            self.wf(),
        ensures
            r@ == lossy_text(range_of(self@, start as int, end as int)),
            valid_utf8(range_of(self@, start as int, end as int)) ==> r@ == decode_utf8(
                range_of(self@, start as int, end as int),
            ),
    {
        let bytes = self.range_bytes(start, end);
        decode_lossy(bytes.as_slice())
    }

    /// Moves the gap to `pos` (clamped to the end); the text stays the same.
    pub fn move_gap(&mut self, pos: usize)
        requires
            old(self).wf(),
        ensures
            final(self).wf(),
            final(self)@ == old(self)@,
            final(self).gap() == clamp_to(pos as int, old(self)@.len() as int),
    {
        let ghost t = self@;
        let total = self.len();
        let p = if pos < total { pos } else { total };
        let g = self.before.len();
        if p < g {
            let mut tail = self.before.split_off(p);
            tail.append(&mut self.after);
            self.after = tail;
            proof {
                assert(self@ =~= t);
            }
        } else if p > g {
            let rest = self.after.split_off(p - g);
            self.before.append(&mut self.after);
            self.after = rest;
            proof {
                assert(self@ =~= t);
            }
        }
    }

    /// Puts `text` at `pos` (clamped to the end).
    pub fn insert_bytes(&mut self, pos: usize, text: &[u8])
        requires
            old(self).wf(),
            old(self)@.len() + text@.len() <= usize::MAX,
        ensures
            final(self).wf(),
            final(self)@ == inserted(old(self)@, pos as int, text@),
    {
        let ghost t = self@;
        self.move_gap(pos);
        let ghost p = self.gap();
        let ghost b0 = self.before@;
        let mut i: usize = 0;
        while i < text.len()
            invariant
                i <= text@.len(),
                self.before@ == b0 + text@.take(i as int),
                self.after@ == t.skip(p),
                b0 == t.take(p),
                0 <= p <= t.len(),
                t.len() + text@.len() <= usize::MAX,
            decreases text@.len() - i,
        {
            self.before.push(text[i]);
            i = i + 1;
            proof {
                assert(self.before@ =~= b0 + text@.take(i as int));
            }
        }
        proof {
            assert(text@.take(text@.len() as int) =~= text@);
            assert(self@ =~= inserted(t, pos as int, text@));
        }
        self.build_cache();
    }

    /// Puts the bytes of `text` at `pos` (clamped to the end).
    pub fn insert(&mut self, pos: usize, text: &str)
        requires
            old(self).wf(),
            old(self)@.len() + text.spec_bytes().len() <= usize::MAX,
        ensures
            final(self).wf(),
            final(self)@ == inserted(old(self)@, pos as int, text.spec_bytes()),
    {
        self.insert_bytes(pos, text.as_bytes());
    }

    /// Takes out up to `len` bytes from `pos` on; what lies past the end is ignored.
    pub fn delete(&mut self, pos: usize, len: usize)
        requires
            old(self).wf(),
        ensures
            final(self).wf(),
            final(self)@ == deleted(old(self)@, pos as int, len as int),
    {
        let ghost t = self@;
        self.move_gap(pos);
        let n = if len < self.after.len() { len } else { self.after.len() };
        let rest = self.after.split_off(n);
        self.after = rest;
        proof {
            assert(self@ =~= deleted(t, pos as int, len as int));
        }
        self.build_cache();
    }

    /// The cache entries are the line index, entry by entry.
    proof fn lemma_cache(&self)
        requires
            self.wf(),
        ensures
            self.line_offsets@.len() == line_index(self@).len(),
            forall|i: int|
                0 <= i < self.line_offsets@.len() ==> #[trigger] self.line_offsets@[i] as int
                    == line_index(self@)[i],
    {
        lemma_line_index(self@);
        assert(ints(self.line_offsets@).len() == self.line_offsets@.len());
        assert forall|i: int| 0 <= i < self.line_offsets@.len() implies #[trigger] self.line_offsets@[i] as int
            == line_index(self@)[i] by {
            assert(ints(self.line_offsets@)[i] == self.line_offsets@[i] as int);
        }
    }

    pub fn num_lines(&self) -> (r: usize)
        requires
            self.wf(),
        ensures
            r == line_count(self@),
            r >= 1,
    {
        proof {
            self.lemma_cache();
            lemma_line_index(self@);
        }
        self.line_offsets.len() - 1
    }

    /// The line index: 0, each later line start, and the length at the end.
    pub fn get_line_offsets(&self) -> (r: Vec<usize>)
        requires
            self.wf(),
        ensures
            ints(r@) == line_index(self@),
    {
        let mut r: Vec<usize> = Vec::new();
        let mut i: usize = 0;
        while i < self.line_offsets.len()
            invariant
                i <= self.line_offsets@.len(),
                r@ == self.line_offsets@.take(i as int),
            decreases self.line_offsets@.len() - i,
        {
            r.push(self.line_offsets[i]);
            i = i + 1;
            proof {
                assert(r@ =~= self.line_offsets@.take(i as int));
            }
        }
        proof {
            assert(r@ =~= self.line_offsets@);
        }
        r
    }

    /// Where line `line_num` starts; a line past the end is the last one.
    pub fn line_start_offset(&self, line_num: usize) -> (r: usize)
        requires
            self.wf(),
        ensures
            r == offset_of(self@, line_num as int, 0),
    {
        self.offset_at(line_num, 0)
    }

    /// Where the text of line `l` ends, before its terminator.
    fn content_end(&self, l: usize) -> (r: usize)
        requires
            self.wf(),
            l < line_count(self@),
        ensures
            r == line_end(self@, l as int),
    {
        proof {
            self.lemma_cache();
            lemma_line_index(self@);
        }
        let n = self.line_offsets.len();
        let s = self.line_offsets[l];
        let e = self.line_offsets[l + 1];
        proof {
            assert(line_index(self@)[l + 1] <= self@.len());
        }
        if e > s && self.byte_at(e - 1) == 10u8 {
            e - 1
        } else {
            e
        }
    }

    /// The length of line `line`, its terminator not counted; 0 past the end.
    pub fn line_len(&self, line: usize) -> (r: usize)
        requires
            self.wf(),
        ensures
            r == line_length(self@, line as int),
    {
        proof {
            self.lemma_cache();
            lemma_line_index(self@);
        }
        if line < self.line_offsets.len() - 1 {
            proof {
                lemma_line_shape(self@, line as int);
            }
            self.content_end(line) - self.line_offsets[line]
        } else {
            0
        }
    }

    /// The offset of (`line`, `col`): the line clamped to the last one, the
    /// column to that line.
    pub fn offset_at(&self, line: usize, col: usize) -> (r: usize)
        requires
            self.wf(),
        ensures
            r == offset_of(self@, line as int, col as int),
            r <= self@.len(),
    {
        proof {
            self.lemma_cache();
            lemma_line_index(self@);
        }
        let count = self.line_offsets.len() - 1;
        let l = if line < count { line } else { count - 1 };
        proof {
            lemma_line_shape(self@, l as int);
        }
        let n = self.line_len(l);
        let c = if col < n { col } else { n };
        self.line_offsets[l] + c
    }

    /// The (line, column) of `pos`, clamped to the text.
    pub fn line_col(&self, pos: usize) -> (r: (usize, usize))
        requires
            self.wf(),
        ensures
            is_line_col(self@, clamp_to(pos as int, self@.len() as int), r.0 as int, r.1 as int),
    {
        proof {
            self.lemma_cache();
            lemma_line_index(self@);
        }
        let total = self.len();
        let p = if pos < total { pos } else { total };
        let count = self.line_offsets.len() - 1;
        let mut i: usize = 0;
        while i + 1 < count && self.line_offsets[i + 1] <= p
            invariant
                self.wf(),
                count == line_count(self@),
                count >= 1,
                i < count,
                line_start(self@, i as int) <= p,
            decreases count - i,
        {
            i = i + 1;
        }
        (i, p - self.line_offsets[i])
    }

    /// Line `line_num` without its terminator, decoded; empty past the end.
    pub fn get_line(&self, line_num: usize) -> (r: String)
        requires
            self.wf(),
        ensures
            r@ == lossy_text(line_content(self@, line_num as int)),
            valid_utf8(line_content(self@, line_num as int)) ==> r@ == decode_utf8(
                line_content(self@, line_num as int),
            ),
    {
        proof {
            self.lemma_cache();
            lemma_line_index(self@);
        }
        if line_num < self.line_offsets.len() - 1 {
            proof {
                lemma_line_shape(self@, line_num as int);
            }
            let s = self.line_offsets[line_num];
            let e = self.content_end(line_num);
            let bytes = self.range_bytes(s, e);
            proof {
                assert(bytes@ =~= line_content(self@, line_num as int));
            }
            decode_lossy(bytes.as_slice())
        } else {
            let bytes: Vec<u8> = Vec::new();
            proof {
                assert(bytes@ =~= line_content(self@, line_num as int));
            }
            decode_lossy(bytes.as_slice())
        }
    }

    /// The whole text, decoded.
    pub fn to_string(&self) -> (r: String)
        requires
            self.wf(),
        ensures
            r@ == lossy_text(self@),
            valid_utf8(self@) ==> r@ == decode_utf8(self@),
    {
        let bytes = self.range_bytes(0, self.len());
        proof {
            assert(bytes@ =~= self@);
        }
        decode_lossy(bytes.as_slice())
    }

    /// The lines as `str::lines` splits the text, each decoded.
    pub fn to_lines(&self) -> (r: Vec<String>)
        requires
            self.wf(),
        ensures
            r@.len() == shown_line_count(self@),
            forall|i: int| 0 <= i < r@.len() ==> #[trigger] r@[i]@ == lossy_text(shown_line(self@, i)),
            forall|i: int|
                0 <= i < r@.len() && valid_utf8(shown_line(self@, i)) ==> #[trigger] r@[i]@
                    == decode_utf8(shown_line(self@, i)),
    {
        proof {
            self.lemma_cache();
            lemma_line_index(self@);
        }
        let count = self.line_offsets.len() - 1;
        let last_len = self.line_len(count - 1);
        let shown = if last_len == 0 { count - 1 } else { count };
        let mut r: Vec<String> = Vec::new();
        let mut i: usize = 0;
        while i < shown
            invariant
                self.wf(),
                count == line_count(self@),
                shown == shown_line_count(self@),
                shown <= count,
                i <= shown,
                r@.len() == i,
                forall|k: int| 0 <= k < i ==> #[trigger] r@[k]@ == lossy_text(shown_line(self@, k)),
                forall|k: int|
                    0 <= k < i && valid_utf8(shown_line(self@, k)) ==> #[trigger] r@[k]@
                        == decode_utf8(shown_line(self@, k)),
            decreases shown - i,
        {
            proof {
                lemma_line_shape(self@, i as int);
            }
            let s = self.line_offsets[i];
            let mut e = self.content_end(i);
            if i + 1 < count && e > s && self.byte_at(e - 1) == 13u8 {
                e = e - 1;
            }
            let bytes = self.range_bytes(s, e);
            proof {
                assert(bytes@ =~= shown_line(self@, i as int));
            }
            r.push(decode_lossy(bytes.as_slice()));
            i = i + 1;
        }
        r
    }
}

impl Default for GapBuffer {
    fn default() -> (r: GapBuffer)
        ensures
            r.wf(),
            r@ == Seq::<u8>::empty(),
    {
        GapBuffer::new()
    }
}

} // verus!
