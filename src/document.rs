//! The text document: a byte store with its path, modified flag and language,
//! plus line-oriented editing, search and replace.

use vstd::prelude::*;
use vstd::string::{StringExecFns, StringSliceAdditionalSpecFns};
use crate::gap_buffer::GapBuffer;
use crate::line_index::{is_line_col, line_content, line_count, line_length, min_int, offset_of};
use crate::naming::{detect_language, display_name, language_of_path, shown_name};
use crate::text::{clamp_to, deleted, inserted, lossy_text};
use vstd::utf8::{decode_utf8, valid_utf8};

verus! {

/// `t` ending with exactly the terminator it had, or with one added.
pub open spec fn with_terminator(t: Seq<u8>) -> Seq<u8> {
    if t.len() > 0 && t.last() == 10u8 {
        t
    } else {
        t.push(10u8)
    }
}

/// `t` with one trailing terminator taken off, as it is written to disk.
pub open spec fn without_terminator(t: Seq<u8>) -> Seq<u8> {
    if t.len() > 0 && t.last() == 10u8 {
        t.drop_last()
    } else {
        t
    }
}

/// `q` stands in `t` at `i`.
pub open spec fn matches_at(t: Seq<u8>, q: Seq<u8>, i: int) -> bool {
    0 <= i && i + q.len() <= t.len() && t.subrange(i, i + q.len()) == q
}

/// The first `i` from `from` on at which `q` stands and ends by `limit`.
pub open spec fn first_match(t: Seq<u8>, q: Seq<u8>, from: int, limit: int) -> Option<int>
    decreases limit - from,
{
    if from < 0 || from >= limit || from + q.len() > limit {
        None
    } else if matches_at(t, q, from) {
        Some(from)
    } else {
        first_match(t, q, from + 1, limit)
    }
}

/// A match found by `first_match` is a match.
pub proof fn lemma_first_match(t: Seq<u8>, q: Seq<u8>, from: int, limit: int)
    ensures
        first_match(t, q, from, limit) matches Some(i) ==> matches_at(t, q, i) && from <= i
            && i + q.len() <= limit,
    decreases limit - from,
{
    if !(from < 0 || from >= limit || from + q.len() > limit) && !matches_at(t, q, from) {
        lemma_first_match(t, q, from + 1, limit);
    }
}

/// Where a search for `q` from `start` lands: the first match that starts
/// after `start`, else (wrapping to the beginning) the first that starts at
/// or before it; none for an empty query.
pub open spec fn search_from(t: Seq<u8>, q: Seq<u8>, start: int) -> Option<int> {
    if q.len() == 0 {
        None
    } else {
        match first_match(t, q, start + 1, t.len() as int) {
            Some(i) => Some(i),
            None => first_match(t, q, 0, min_int(start + q.len(), t.len() as int)),
        }
    }
}

/// `t` from `i` on with each match of `o`, left to right and not overlapping,
/// replaced by `n`; and how many were replaced.
pub open spec fn replace_scan(t: Seq<u8>, o: Seq<u8>, n: Seq<u8>, i: int) -> (Seq<u8>, nat)
    decreases t.len() - i,
{
    if o.len() == 0 || i < 0 || i >= t.len() {
        (Seq::empty(), 0)
    } else if matches_at(t, o, i) {
        let rest = replace_scan(t, o, n, i + o.len());
        (n + rest.0, rest.1 + 1)
    } else {
        let rest = replace_scan(t, o, n, i + 1);
        (seq![t[i]] + rest.0, rest.1)
    }
}

/// How many matches of `o`, left to right and not overlapping, stand in `t`
/// from `i` on.
pub open spec fn count_scan(t: Seq<u8>, o: Seq<u8>, i: int) -> nat
    decreases t.len() - i,
{
    if o.len() == 0 || i < 0 || i >= t.len() {
        0
    } else if matches_at(t, o, i) {
        count_scan(t, o, i + o.len()) + 1
    } else {
        count_scan(t, o, i + 1)
    }
}

/// The text after replacing every `o` by `n`, ending with a terminator; an
/// empty `o` replaces nothing.
pub open spec fn replaced(t: Seq<u8>, o: Seq<u8>, n: Seq<u8>) -> Seq<u8> {
    with_terminator(if o.len() == 0 { t } else { replace_scan(t, o, n, 0).0 })
}

/// How many matches of `o` a replacement takes out.
pub open spec fn replace_count(t: Seq<u8>, o: Seq<u8>) -> nat {
    count_scan(t, o, 0)
}

pub open spec fn path_view(p: Option<String>) -> Option<Seq<char>> {
    match p {
        Some(s) => Some(s@),
        None => None,
    }
}

/// A document: its bytes, where it is saved, whether it changed since, and
/// the language its extension gives.
#[derive(Clone)]
pub struct Buffer {
    pub text: GapBuffer,
    pub path: Option<String>,
    pub is_modified: bool,
    pub language: String,
}

impl Buffer {
    pub open spec fn wf(&self) -> bool {
        self.text.wf()
    }

    /// The document's bytes.
    pub open spec fn bytes(&self) -> Seq<u8> {
        self.text@
    }

    fn single_terminator() -> (r: GapBuffer)
        ensures
            r.wf(),
            r@ == seq![10u8],
    {
        let mut text = GapBuffer::new();
        let mut nl: Vec<u8> = Vec::new();
        nl.push(10u8);
        text.insert_bytes(0, nl.as_slice());
        proof {
            assert(text@ =~= seq![10u8]);
        }
        text
    }

    /// An unnamed document holding one empty line.
    pub fn new() -> (r: Buffer)
        ensures
            r.wf(),
            r.bytes() == seq![10u8],
            r.path.is_none(),
            !r.is_modified,
            r.language@ == "plaintext"@,
    {
        Buffer {
            text: Self::single_terminator(),
            path: None,
            is_modified: false,
            language: String::from_str("plaintext"),
        }
    }

    /// A document for a file that does not exist yet.
    pub fn for_new_file(path: String) -> (r: Buffer)
        ensures
            r.wf(),
            r.bytes() == seq![10u8],
            r.path == Some(path),
            !r.is_modified,
            r.language@ == language_of_path(path@),
    {
        let language = detect_language(path.as_str());
        Buffer { text: Self::single_terminator(), path: Some(path), is_modified: false, language }
    }

    /// A document for a file read from `path`: its content ends with one
    /// terminator, added when the file had none.
    pub fn from_content(path: String, content: &str) -> (r: Buffer)
        ensures
            r.wf(),
            r.bytes() == with_terminator(content.spec_bytes()),
            r.path == Some(path),
            !r.is_modified,
            r.language@ == language_of_path(path@),
    {
        let mut bytes = content.as_bytes_vec();
        let n = bytes.len();
        if n == 0 || bytes[n - 1] != 10u8 {
            bytes.push(10u8);
        }
        let language = detect_language(path.as_str());
        Buffer { text: GapBuffer::from_bytes(bytes), path: Some(path), is_modified: false, language }
    }

    /// Puts `text` at `pos` (clamped to the end).
    pub fn insert(&mut self, pos: usize, text: &str)
        requires
            old(self).wf(),
            old(self).bytes().len() + text.spec_bytes().len() <= usize::MAX,
        ensures
            final(self).wf(),
            final(self).bytes() == inserted(old(self).bytes(), pos as int, text.spec_bytes()),
            final(self).is_modified,
            final(self).path == old(self).path,
            final(self).language == old(self).language,
    {
        self.text.insert(pos, text);
        self.is_modified = true;
    }

    /// Puts the bytes `b` at `pos` (clamped to the end).
    pub fn insert_bytes(&mut self, pos: usize, b: &[u8])
        requires
            old(self).wf(),
            old(self).bytes().len() + b@.len() <= usize::MAX,
        ensures
            final(self).wf(),
            final(self).bytes() == inserted(old(self).bytes(), pos as int, b@),
            final(self).is_modified,
            final(self).path == old(self).path,
            final(self).language == old(self).language,
    {
        self.text.insert_bytes(pos, b);
        self.is_modified = true;
    }

    /// Takes out up to `len` bytes from `pos` on.
    pub fn delete(&mut self, pos: usize, len: usize)
        requires
            old(self).wf(),
        ensures
            final(self).wf(),
            final(self).bytes() == deleted(old(self).bytes(), pos as int, len as int),
            final(self).is_modified,
            final(self).path == old(self).path,
            final(self).language == old(self).language,
    {
        self.text.delete(pos, len);
        self.is_modified = true;
    }

    pub fn get_line(&self, line: usize) -> (r: String)
        requires
            self.wf(),
        ensures
            r@ == lossy_text(line_content(self.bytes(), line as int)),
            valid_utf8(line_content(self.bytes(), line as int)) ==> r@ == decode_utf8(
                line_content(self.bytes(), line as int),
            ),
    {
        self.text.get_line(line)
    }

    pub fn num_lines(&self) -> (r: usize)
        requires
            self.wf(),
        ensures
            r == line_count(self.bytes()),
            r >= 1,
    {
        self.text.num_lines()
    }

    /// The length of a line without its terminator; 0 past the end.
    pub fn line_len(&self, line: usize) -> (r: usize)
        requires
            self.wf(),
        ensures
            r == line_length(self.bytes(), line as int),
    {
        self.text.line_len(line)
    }

    pub fn total_len(&self) -> (r: usize)
        requires
            self.wf(),
        ensures
            r == self.bytes().len(),
    {
        self.text.len()
    }

    /// Splits line `line` at column `col` (clamped to the line).
    pub fn insert_newline(&mut self, line: usize, col: usize)
        requires
            old(self).wf(),
            old(self).bytes().len() + 1 <= usize::MAX,
        ensures
            final(self).wf(),
            final(self).bytes() == inserted(
                old(self).bytes(),
                offset_of(old(self).bytes(), line as int, col as int),
                seq![10u8],
            ),
            final(self).is_modified,
            final(self).path == old(self).path,
            final(self).language == old(self).language,
    {
        let pos = self.get_cursor_pos(line, col);
        let mut nl: Vec<u8> = Vec::new();
        nl.push(10u8);
        proof {
            assert(nl@ =~= seq![10u8]);
        }
        self.insert_bytes(pos, nl.as_slice());
    }

    /// The offset of (`line`, `col`): the line clamped to the last one, the
    /// column to that line.
    pub fn get_cursor_pos(&self, line: usize, col: usize) -> (r: usize)
        requires
            self.wf(),
        ensures
            r == offset_of(self.bytes(), line as int, col as int),
    {
        self.text.offset_at(line, col)
    }

    /// The (line, column) of `pos`, clamped to the document.
    pub fn get_line_col(&self, pos: usize) -> (r: (usize, usize))
        requires
            self.wf(),
        ensures
            is_line_col(
                self.bytes(),
                clamp_to(pos as int, self.bytes().len() as int),
                r.0 as int,
                r.1 as int,
            ),
    {
        self.text.line_col(pos)
    }

    /// The last component of the path, or `[No Name]`.
    pub fn file_name(&self) -> (r: String)
        ensures
            r@ == shown_name(path_view(self.path)),
    {
        display_name(&self.path)
    }

    /// The bytes to write to disk: one trailing terminator taken off.
    pub fn saved_bytes(&self) -> (r: Vec<u8>)
        requires
            self.wf(),
        ensures
            r@ == without_terminator(self.bytes()),
    {
        let n = self.text.len();
        let end = if n > 0 && self.text.byte_at(n - 1) == 10u8 { n - 1 } else { n };
        let r = self.text.range_bytes(0, end);
        proof {
            assert(r@ =~= without_terminator(self.bytes()));
        }
        r
    }

    /// Records that the document was written to its path.
    pub fn mark_saved(&mut self)
        ensures
            !final(self).is_modified,
            final(self).text == old(self).text,
            final(self).path == old(self).path,
            final(self).language == old(self).language,
    {
        self.is_modified = false;
    }

    /// Records that the document was written to `path`, which it now has,
    /// with the language that path gives.
    pub fn mark_saved_as(&mut self, path: String)
        ensures
            !final(self).is_modified,
            final(self).text == old(self).text,
            final(self).path == Some(path),
            final(self).language@ == language_of_path(path@),
    {
        self.language = detect_language(path.as_str());
        self.path = Some(path);
        self.is_modified = false;
    }

    /// Whether `q` stands at `i`.
    fn match_at(&self, q: &[u8], i: usize) -> (r: bool)
        requires
            self.wf(),
            i + q@.len() <= self.bytes().len(),
        ensures
            r == matches_at(self.bytes(), q@, i as int),
    {
        let ghost t = self.bytes();
        let total = self.text.len();
        let mut k: usize = 0;
        while k < q.len()
            invariant
                self.wf(),
                t == self.bytes(),
                total == t.len(),
                i + q@.len() <= t.len(),
                k <= q@.len(),
                t.subrange(i as int, i + k) == q@.take(k as int),
            decreases q@.len() - k,
        {
            if self.text.byte_at(i + k) != q[k] {
                proof {
                    assert(t.subrange(i as int, i + q@.len())[k as int] != q@[k as int]);
                }
                return false;
            }
            k = k + 1;
            proof {
                assert(t.subrange(i as int, i + k) =~= q@.take(k as int));
            }
        }
        proof {
            assert(q@.take(q@.len() as int) =~= q@);
        }
        true
    }

    /// The first match of `q` from `from` on that ends by `limit`.
    fn first_match_in(&self, q: &[u8], from: usize, limit: usize) -> (r: Option<usize>)
        requires
            self.wf(),
            limit <= self.bytes().len(),
        ensures
            match r {
                Some(i) => first_match(self.bytes(), q@, from as int, limit as int) == Some(i as int),
                None => first_match(self.bytes(), q@, from as int, limit as int).is_none(),
            },
    {
        let ghost t = self.bytes();
        let mut i: usize = from;
        while i < limit && q.len() <= limit - i
            invariant
                self.wf(),
                t == self.bytes(),
                limit <= t.len(),
                from <= i,
                first_match(t, q@, from as int, limit as int) == first_match(
                    t,
                    q@,
                    i as int,
                    limit as int,
                ),
            decreases limit - i,
        {
            if self.match_at(q, i) {
                return Some(i);
            }
            i = i + 1;
        }
        None
    }

    /// Searches for `query` after (`from_line`, `from_col`) to the end, then
    /// from the start; gives the (line, column) of the match found.
    pub fn find(&self, query: &str, from_line: usize, from_col: usize) -> (r: Option<(usize, usize)>)
        requires
            self.wf(),
        ensures
            match search_from(
                self.bytes(),
                query.spec_bytes(),
                offset_of(self.bytes(), from_line as int, from_col as int),
            ) {
                Some(off) => r.is_some() && is_line_col(
                    self.bytes(),
                    off,
                    r.unwrap().0 as int,
                    r.unwrap().1 as int,
                ),
                None => r.is_none(),
            },
    {
        let q = query.as_bytes();
        if q.len() == 0 {
            return None;
        }
        let start = self.get_cursor_pos(from_line, from_col);
        proof {
            crate::line_index::lemma_line_index(self.bytes());
            if 0 <= from_line < line_count(self.bytes()) {
                crate::line_index::lemma_line_shape(self.bytes(), from_line as int);
            }
        }
        let total = self.text.len();
        let wrap_end = if q.len() < total - start { start + q.len() } else { total };
        let ahead = if start < total { self.first_match_in(q, start + 1, total) } else { None };
        let found = match ahead {
            Some(i) => Some(i),
            None => self.first_match_in(q, 0, wrap_end),
        };
        proof {
            lemma_first_match(self.bytes(), q@, start + 1, total as int);
            lemma_first_match(self.bytes(), q@, 0, wrap_end as int);
        }
        match found {
            Some(i) => Some(self.get_line_col(i)),
            None => None,
        }
    }

    /// Replaces every match of `pattern`, left to right and not overlapping,
    /// by `with`; the text then ends with a terminator. Gives the number replaced.
    pub fn replace(&mut self, pattern: &str, with: &str) -> (r: usize)
        requires
            old(self).wf(),
        ensures
            final(self).wf(),
            final(self).bytes() == replaced(old(self).bytes(), pattern.spec_bytes(), with.spec_bytes()),
            r == replace_count(old(self).bytes(), pattern.spec_bytes()),
            final(self).is_modified,
            final(self).path == old(self).path,
            final(self).language == old(self).language,
    {
        let ghost t = self.bytes();
        let o = pattern.as_bytes();
        let n = with.as_bytes();
        let total = self.text.len();
        let mut out: Vec<u8> = Vec::new();
        let mut count: usize = 0;
        if o.len() == 0 {
            out = self.text.range_bytes(0, total);
            proof {
                assert(out@ =~= t);
            }
        } else {
            let mut i: usize = 0;
            proof {
                assert(out@ + replace_scan(t, o@, n@, 0).0 =~= replace_scan(t, o@, n@, 0).0);
            }
            while i < total
                invariant
                    self.wf(),
                    t == self.bytes(),
                    total == t.len(),
                    o@.len() > 0,
                    i <= total,
                    count <= i,
                    out@ + replace_scan(t, o@, n@, i as int).0 == replace_scan(t, o@, n@, 0).0,
                    count + count_scan(t, o@, i as int) == count_scan(t, o@, 0),
                decreases total - i,
            {
                if o.len() <= total - i && self.match_at(o, i) {
                    let ghost before = out@;
                    let mut k: usize = 0;
                    while k < n.len()
                        invariant
                            k <= n@.len(),
                            out@ == before + n@.take(k as int),
                        decreases n@.len() - k,
                    {
                        out.push(n[k]);
                        k = k + 1;
                        proof {
                            assert(out@ =~= before + n@.take(k as int));
                        }
                    }
                    proof {
                        assert(n@.take(n@.len() as int) =~= n@);
                        let rest = replace_scan(t, o@, n@, i + o@.len()).0;
                        assert(out@ + rest =~= before + (n@ + rest));
                    }
                    count = count + 1;
                    i = i + o.len();
                } else {
                    let ghost before = out@;
                    out.push(self.text.byte_at(i));
                    proof {
                        let rest = replace_scan(t, o@, n@, i + 1).0;
                        assert(out@ + rest =~= before + (seq![t[i as int]] + rest));
                    }
                    i = i + 1;
                }
            }
            proof {
                assert(out@ =~= replace_scan(t, o@, n@, 0).0);
            }
        }
        let len = out.len();
        if len == 0 || out[len - 1] != 10u8 {
            out.push(10u8);
        }
        self.text = GapBuffer::from_bytes(out);
        self.is_modified = true;
        count
    }
}

impl Default for Buffer {
    fn default() -> (r: Buffer)
        ensures
            r.wf(),
            r.bytes() == seq![10u8],
            r.path.is_none(),
            !r.is_modified,
            r.language@ == "plaintext"@,
    {
        Buffer::new()
    }
}

} // verus!
