//! Byte sequences: edits on them, and decoding them for display.

use vstd::prelude::*;
use vstd::string::{StrSliceExecFns, StringExecFns};
use vstd::utf8::{decode_utf8, valid_utf8};

verus! {

/// `pos` moved into `[0, len]`.
pub open spec fn clamp_to(pos: int, len: int) -> int {
    if pos < 0 {
        0
    } else if pos < len {
        pos
    } else {
        len
    }
}

/// `s` put into `t` at `pos` (clamped to the end).
pub open spec fn inserted(t: Seq<u8>, pos: int, s: Seq<u8>) -> Seq<u8> {
    let p = clamp_to(pos, t.len() as int);
    t.take(p) + s + t.skip(p)
}

/// Up to `n` bytes taken out of `t` from `pos` on, both clamped to the end.
pub open spec fn deleted(t: Seq<u8>, pos: int, n: int) -> Seq<u8> {
    let p = clamp_to(pos, t.len() as int);
    let e = clamp_to(p + n, t.len() as int);
    t.take(p) + t.skip(e)
}

/// The bytes of `[start, end)`, both clamped to the end; empty when they cross.
pub open spec fn range_of(t: Seq<u8>, start: int, end: int) -> Seq<u8> {
    let s = clamp_to(start, t.len() as int);
    let e = clamp_to(end, t.len() as int);
    if s < e {
        t.subrange(s, e)
    } else {
        Seq::empty()
    }
}

/// The text that lossy UTF-8 decoding makes of `b`.
pub uninterp spec fn lossy_text(b: Seq<u8>) -> Seq<char>;

/// Relies on `String::from_utf8_lossy`: the result depends on the bytes alone,
/// and bytes that are valid UTF-8 decode to exactly the characters they encode.
#[verifier::external_body]
pub(crate) fn decode_lossy(b: &[u8]) -> (r: String)
    ensures
        r@ == lossy_text(b@),
        valid_utf8(b@) ==> r@ == decode_utf8(b@),
{
    String::from_utf8_lossy(b).into_owned()
}

/// Relies on `String::push`: the character is added at the end.
#[verifier::external_body]
pub(crate) fn with_char(s: String, c: char) -> (r: String)
    ensures
        r@ == s@.push(c),
{
    let mut s = s;
    s.push(c);
    s
}

/// `s` without its last character, if it has one.
pub open spec fn without_last(s: Seq<char>) -> Seq<char> {
    if s.len() == 0 {
        s
    } else {
        s.drop_last()
    }
}

/// A copy of `s` without its last character.
pub fn without_last_char(s: &String) -> (r: String)
    ensures
        r@ == without_last(s@),
{
    let n = s.as_str().unicode_len();
    if n == 0 {
        String::new()
    } else {
        let r = String::from_str(s.as_str().substring_char(0, n - 1));
        proof {
            assert(r@ =~= s@.drop_last());
        }
        r
    }
}

} // verus!
