//! The editor controller: owns the document, cursor, scroll, undo log and
//! mode, and turns each key into changes of them.

use vstd::prelude::*;
use vstd::string::{StringExecFns, StrSliceExecFns};
use vstd::utf8::encode_utf8;
use crate::document::{replaced, search_from, Buffer};
use crate::history::{
    after_push, apply_op, consistent, fits_apply, fits_revert, lemma_push_consistent,
    lemma_redo_consistent, lemma_undo_all_consistent, lemma_undo_consistent, origin_after_push,
    recorded, replay, revert_op, rewind, EditOp, UndoHistory,
};
use crate::keys::{is_ctrl, typed_char, KeyCode, KeyEvent, KeyKind};
use crate::line_index::{
    clamp_cursor_spec, is_line_col, lemma_line_index, lemma_line_shape, line_content, line_count,
    line_length, line_start, min_int, offset_of, valid_cursor,
};
use crate::mode::{
    is_quit_prompt, is_save_as_prompt, mode_outcome, mode_wf, quit_prompt, save_as_prompt,
    step_mode, EditorMode, Effect, PendingAction, Step,
};
use crate::naming::language_of_path;
use crate::settings::Settings;
use crate::text::{deleted, inserted, lossy_text, with_char};

verus! {

/// Rows of the screen that are not text: the title, status and help bars.
pub const CHROME_ROWS: usize = 3;

/// The first line shown so that the cursor line stays in a view of
/// `height - CHROME_ROWS` rows, moving the view as little as needed and never
/// past the last line.
pub open spec fn scroll_spec(cursor: int, scroll: int, height: int, lines: int) -> int {
    let view = if height >= CHROME_ROWS { height - CHROME_ROWS } else { 0 };
    let s1 = if cursor < scroll { cursor } else { scroll };
    let s2 = if view > 0 && cursor >= s1 + view { cursor - (view - 1) } else { s1 };
    let top = if lines >= view { lines - view } else { 0 };
    if s2 > top { top } else { s2 }
}

/// The new first visible line.
pub fn scroll_for(cursor: usize, scroll: usize, height: usize, lines: usize) -> (r: usize)
    ensures
        r == scroll_spec(cursor as int, scroll as int, height as int, lines as int),
        ({
            let view = height - CHROME_ROWS;
            view > 0 && cursor < lines ==> r <= cursor < r + view
        }),
{
    let view = if height >= CHROME_ROWS { height - CHROME_ROWS } else { 0 };
    let mut s = if cursor < scroll { cursor } else { scroll };
    if view > 0 && cursor - s >= view {
        s = cursor - (view - 1);
    }
    let top = if lines >= view { lines - view } else { 0 };
    if s > top {
        top
    } else {
        s
    }
}

/// The cursor moved into the document.
pub fn clamped(buffer: &Buffer, line: usize, col: usize) -> (r: (usize, usize))
    requires
        buffer.wf(),
    ensures
        (r.0 as int, r.1 as int) == clamp_cursor_spec(buffer.bytes(), line as int, col as int),
        valid_cursor(buffer.bytes(), r.0 as int, r.1 as int),
{
    let n = buffer.num_lines();
    let l = if line < n - 1 { line } else { n - 1 };
    let len = buffer.line_len(l);
    let c = if col < len { col } else { len };
    (l, c)
}

/// A continuation byte of a UTF-8 sequence.
pub open spec fn is_continuation(b: u8) -> bool {
    0x80 <= b && b < 0xC0
}

/// Going back from `q`, the first byte at or after `lo` that starts a character.
pub open spec fn char_start_before(t: Seq<u8>, lo: int, q: int) -> int
    decreases q - lo,
{
    if q <= lo {
        lo
    } else if is_continuation(t[q]) {
        char_start_before(t, lo, q - 1)
    } else {
        q
    }
}

/// Going on from `q`, the first byte before `hi` that starts a character, or `hi`.
pub open spec fn char_end_after(t: Seq<u8>, hi: int, q: int) -> int
    decreases hi - q,
{
    if q >= hi {
        hi
    } else if is_continuation(t[q]) {
        char_end_after(t, hi, q + 1)
    } else {
        q
    }
}

fn char_start(buffer: &Buffer, lo: usize, q: usize) -> (r: usize)
    requires
        buffer.wf(),
        q < buffer.bytes().len(),
    ensures
        r == char_start_before(buffer.bytes(), lo as int, q as int),
        q >= lo ==> lo <= r <= q,
        q < lo ==> r == lo,
{
    let mut k = q;
    while k > lo && buffer.text.byte_at(k) >= 0x80u8 && buffer.text.byte_at(k) < 0xC0u8
        invariant
            buffer.wf(),
            k <= q < buffer.bytes().len(),
            q >= lo ==> lo <= k,
            char_start_before(buffer.bytes(), lo as int, q as int) == char_start_before(
                buffer.bytes(),
                lo as int,
                k as int,
            ),
        decreases k,
    {
        k = k - 1;
    }
    if k <= lo {
        lo
    } else {
        k
    }
}

fn char_end(buffer: &Buffer, hi: usize, q: usize) -> (r: usize)
    requires
        buffer.wf(),
        hi <= buffer.bytes().len(),
    ensures
        r == char_end_after(buffer.bytes(), hi as int, q as int),
        q <= hi ==> q <= r <= hi,
        q > hi ==> r == hi,
{
    let mut k = q;
    while k < hi && buffer.text.byte_at(k) >= 0x80u8 && buffer.text.byte_at(k) < 0xC0u8
        invariant
            buffer.wf(),
            hi <= buffer.bytes().len(),
            q <= k,
            q <= hi ==> k <= hi,
            char_end_after(buffer.bytes(), hi as int, q as int) == char_end_after(
                buffer.bytes(),
                hi as int,
                k as int,
            ),
        decreases hi - k,
    {
        k = k + 1;
    }
    if k >= hi {
        hi
    } else {
        k
    }
}

/// A space or a tab.
pub open spec fn is_blank(b: u8) -> bool {
    b == 32u8 || b == 9u8
}

/// How many blanks a line starts with.
pub open spec fn blank_prefix(s: Seq<u8>) -> int
    decreases s.len(),
{
    if s.len() > 0 && is_blank(s[0]) {
        1 + blank_prefix(s.drop_first())
    } else {
        0
    }
}

/// The leading spaces and tabs of line `l`.
pub open spec fn indent_of(t: Seq<u8>, l: int) -> Seq<u8> {
    let c = line_content(t, l);
    c.take(blank_prefix(c))
}

proof fn lemma_blank_prefix(s: Seq<u8>, i: int)
    requires
        0 <= i <= s.len(),
        forall|k: int| 0 <= k < i ==> is_blank(#[trigger] s[k]),
    ensures
        blank_prefix(s) == i + blank_prefix(s.skip(i)),
        0 <= blank_prefix(s) <= s.len(),
    decreases i,
{
    if i > 0 {
        assert(s.skip(1) =~= s.drop_first());
        lemma_blank_prefix(s.drop_first(), i - 1);
        assert(s.drop_first().skip(i - 1) =~= s.skip(i));
    } else {
        lemma_blank_prefix_bound(s);
        assert(s.skip(0) =~= s);
    }
}

proof fn lemma_blank_prefix_bound(s: Seq<u8>)
    ensures
        0 <= blank_prefix(s) <= s.len(),
    decreases s.len(),
{
    if s.len() > 0 && is_blank(s[0]) {
        lemma_blank_prefix_bound(s.drop_first());
    }
}

/// The leading spaces and tabs of line `line`.
pub fn get_indent(buffer: &Buffer, line: usize) -> (r: Vec<u8>)
    requires
        buffer.wf(),
    ensures
        r@ == indent_of(buffer.bytes(), line as int),
{
    let ghost t = buffer.bytes();
    let ghost c = line_content(t, line as int);
    let mut r: Vec<u8> = Vec::new();
    if line >= buffer.num_lines() {
        proof {
            assert(c.len() == 0);
            assert(r@ =~= c.take(blank_prefix(c)));
        }
        return r;
    }
    proof {
        lemma_line_index(t);
        lemma_line_shape(t, line as int);
    }
    let start = buffer.get_cursor_pos(line, 0);
    let len = buffer.line_len(line);
    let total = buffer.total_len();
    let mut i: usize = 0;
    while i < len && (buffer.text.byte_at(start + i) == 32u8 || buffer.text.byte_at(start + i) == 9u8)
        invariant
            buffer.wf(),
            t == buffer.bytes(),
            c == line_content(t, line as int),
            c.len() == len,
            total == t.len(),
            start == line_start(t, line as int),
            start + len <= t.len(),
            c == t.subrange(start as int, start + len),
            i <= len,
            r@ == c.take(i as int),
            forall|k: int| 0 <= k < i ==> is_blank(#[trigger] c[k]),
        decreases len - i,
    {
        r.push(buffer.text.byte_at(start + i));
        i = i + 1;
        proof {
            assert(r@ =~= c.take(i as int));
        }
    }
    proof {
        lemma_blank_prefix(c, i as int);
        if i < len {
            assert(c.skip(i as int)[0] == c[i as int]);
        }
        assert(blank_prefix(c.skip(i as int)) == 0);
    }
    r
}

/// Puts `text` at `pos` and logs the insertion.
fn insert_recorded(
    buffer: &mut Buffer,
    undo: &mut UndoHistory,
    origin: &mut Ghost<Seq<u8>>,
    pos: usize,
    text: Vec<u8>,
)
    requires
        old(buffer).wf(),
        old(undo).wf(),
        consistent(old(origin)@, old(undo).entries(), old(undo).cursor(), old(buffer).bytes()),
        pos <= old(buffer).bytes().len(),
        old(buffer).bytes().len() + text@.len() <= usize::MAX,
    ensures
        final(buffer).wf(),
        final(undo).wf(),
        final(buffer).bytes() == inserted(old(buffer).bytes(), pos as int, text@),
        final(buffer).path == old(buffer).path,
        final(undo).entries() == after_push(
            old(undo).entries(),
            old(undo).cursor(),
            EditOp::Insert { pos, text },
        ),
        recorded(old(buffer).bytes(), EditOp::Insert { pos, text }),
        consistent(final(origin)@, final(undo).entries(), final(undo).cursor(), final(buffer).bytes()),
{
    let ghost o = origin@;
    let ghost es = undo.entries();
    let ghost c = undo.cursor();
    let ghost t = buffer.bytes();
    buffer.insert_bytes(pos, text.as_slice());
    let op = EditOp::Insert { pos, text };
    let ghost pushed = op;
    undo.push(op);
    proof {
        lemma_push_consistent(o, es, c, t, pushed);
    }
    *origin = Ghost(origin_after_push(o, es, c, pushed));
}

/// Takes out the bytes of `[pos, end)` and logs them.
fn delete_recorded(
    buffer: &mut Buffer,
    undo: &mut UndoHistory,
    origin: &mut Ghost<Seq<u8>>,
    pos: usize,
    end: usize,
)
    requires
        old(buffer).wf(),
        old(undo).wf(),
        consistent(old(origin)@, old(undo).entries(), old(undo).cursor(), old(buffer).bytes()),
        pos <= end <= old(buffer).bytes().len(),
    ensures
        final(buffer).wf(),
        final(undo).wf(),
        final(buffer).bytes() == deleted(old(buffer).bytes(), pos as int, end - pos),
        final(buffer).path == old(buffer).path,
        final(undo).entries().len() > 0,
        final(undo).entries() == after_push(
            old(undo).entries(),
            old(undo).cursor(),
            final(undo).entries().last(),
        ),
        final(undo).entries().last() matches EditOp::Delete { pos: p, text } && p == pos
            && text@ == old(buffer).bytes().subrange(pos as int, end as int),
        recorded(old(buffer).bytes(), final(undo).entries().last()),
        consistent(final(origin)@, final(undo).entries(), final(undo).cursor(), final(buffer).bytes()),
{
    let ghost o = origin@;
    let ghost es = undo.entries();
    let ghost c = undo.cursor();
    let ghost t = buffer.bytes();
    let text = buffer.text.range_bytes(pos, end);
    proof {
        assert(text@ =~= t.subrange(pos as int, end as int));
    }
    buffer.delete(pos, end - pos);
    let op = EditOp::Delete { pos, text };
    let ghost pushed = op;
    undo.push(op);
    proof {
        assert(undo.entries().last() == pushed);
        lemma_push_consistent(o, es, c, t, pushed);
    }
    *origin = Ghost(origin_after_push(o, es, c, pushed));
}

/// The editor: one document, its cursor and view, its undo log and mode.
pub struct Editor {
    pub buffer: Buffer,
    pub cursor_line: usize,
    pub cursor_col: usize,
    pub scroll_offset: usize,
    pub settings: Settings,
    pub show_help: bool,
    pub show_line_numbers: bool,
    pub word_wrap: bool,
    pub should_quit: bool,
    pub undo: UndoHistory,
    pub mode: EditorMode,
    pub pending_action: Option<PendingAction>,
    pub quit_after_save: bool,
    pub cursor_blink_on: bool,
    /// Milliseconds since the cursor last blinked or moved.
    pub blink_elapsed_ms: u64,
    pub screen_width: usize,
    pub screen_height: usize,
    /// Which of `theme_count` themes is shown.
    pub theme_index: usize,
    pub theme_count: usize,
    /// The help screen was opened and wants a new tip.
    pub tip_requested: bool,
    /// The text that the undo log starts from.
    pub origin: Ghost<Seq<u8>>,
}

/// The cursor is `clamp_cursor_spec` of (`l`, `c`) in the new text, and the
/// view follows it from where it stood.
pub open spec fn settled(o: Editor, n: Editor, l: int, c: int) -> bool {
    &&& (n.cursor_line as int, n.cursor_col as int) == clamp_cursor_spec(n.text(), l, c)
    &&& n.scroll_offset == scroll_spec(
        n.cursor_line as int,
        o.scroll_offset as int,
        o.screen_height as int,
        line_count(n.text()),
    )
}

/// The document and its log are as they were.
pub open spec fn keeps_document(o: Editor, n: Editor) -> bool {
    n.buffer == o.buffer && n.undo == o.undo
}

/// The mode and the flags of the session are as they were.
pub open spec fn keeps_session(o: Editor, n: Editor) -> bool {
    &&& n.mode == o.mode
    &&& n.should_quit == o.should_quit
    &&& n.quit_after_save == o.quit_after_save
    &&& n.pending_action == o.pending_action
    &&& n.show_help == o.show_help
    &&& n.show_line_numbers == o.show_line_numbers
    &&& n.word_wrap == o.word_wrap
    &&& n.theme_index == o.theme_index
}

/// The text got `ins` at `p`, and the log got that insertion.
pub open spec fn logged_insert(o: Editor, n: Editor, p: int, ins: Seq<u8>) -> bool {
    &&& n.text() == inserted(o.text(), p, ins)
    &&& n.undo.entries().len() > 0
    &&& n.undo.entries() == after_push(o.undo.entries(), o.undo.cursor(), n.undo.entries().last())
    &&& n.undo.entries().last() matches EditOp::Insert { pos, text } && pos == p && text@ == ins
}

/// The bytes of `[p, e)` left the text, and the log got that deletion.
pub open spec fn logged_delete(o: Editor, n: Editor, p: int, e: int) -> bool {
    &&& n.text() == deleted(o.text(), p, e - p)
    &&& n.undo.entries().len() > 0
    &&& n.undo.entries() == after_push(o.undo.entries(), o.undo.cursor(), n.undo.entries().last())
    &&& n.undo.entries().last() matches EditOp::Delete { pos, text } && pos == p && text@
        == o.text().subrange(p, e)
}

/// Control and shift with `T`.
pub open spec fn is_theme_key(key: KeyEvent) -> bool {
    key.code == KeyCode::Char('T') && key.modifiers.control && key.modifiers.shift
        && !key.modifiers.alt
}

/// An edit of `ins` at the cursor, when the text can grow by that much.
pub open spec fn typed_outcome(o: Editor, n: Editor, ins: Seq<u8>, l: int, c: int) -> bool {
    if o.text().len() + ins.len() <= usize::MAX {
        logged_insert(o, n, line_start(o.text(), o.cursor_line as int) + o.cursor_col, ins)
            && settled(o, n, l, c)
    } else {
        keeps_document(o, n) && settled(o, n, o.cursor_line as int, o.cursor_col as int)
    }
}

/// A key of Normal mode that changes the mode or a setting, not the text.
pub open spec fn is_command_key(key: KeyEvent) -> bool {
    is_ctrl(key, 'h') || is_ctrl(key, 'q') || is_ctrl(key, 's') || is_ctrl(key, 'o') || is_ctrl(
        key,
        'b',
    ) || is_ctrl(key, 't') || is_ctrl(key, 'w') || is_theme_key(key) || is_ctrl(key, 'f')
        || is_ctrl(key, '\\') || is_ctrl(key, 'g')
}

/// Undo or redo.
pub open spec fn is_history_key(key: KeyEvent) -> bool {
    is_ctrl(key, 'z') || is_ctrl(key, 'y')
}

/// A key that moves the cursor.
pub open spec fn is_motion_key(key: KeyEvent) -> bool {
    key.code == KeyCode::Up || key.code == KeyCode::Down || key.code == KeyCode::Left || key.code
        == KeyCode::Right || key.code == KeyCode::Home || key.code == KeyCode::End || key.code
        == KeyCode::PageUp || key.code == KeyCode::PageDown
}

/// What a command key does in Normal mode.
pub open spec fn command_outcome(o: Editor, n: Editor, key: KeyEvent) -> bool {
    let stay = settled(o, n, o.cursor_line as int, o.cursor_col as int);
    &&& keeps_document(o, n)
    &&& stay
    &&& if is_ctrl(key, 'h') {
        n.mode is Help && n.tip_requested
    } else if is_ctrl(key, 'q') {
        if o.buffer.path is None {
            is_save_as_prompt(n.mode) && n.quit_after_save && n.should_quit == o.should_quit
        } else if o.buffer.is_modified {
            is_quit_prompt(n.mode) && n.should_quit == o.should_quit
        } else {
            n.should_quit && n.mode == o.mode
        }
    } else if is_ctrl(key, 's') {
        if o.buffer.path is None {
            is_save_as_prompt(n.mode) && n.pending_action == o.pending_action
        } else {
            n.pending_action == Some(PendingAction::Save) && n.mode == o.mode
        }
    } else if is_ctrl(key, 'o') {
        n.pending_action == Some(PendingAction::OpenFile) && n.mode == o.mode
    } else if is_ctrl(key, 'b') {
        n.show_line_numbers == !o.show_line_numbers && n.mode == o.mode
    } else if is_ctrl(key, 't') {
        n.show_help == !o.show_help && n.mode == o.mode
    } else if is_ctrl(key, 'w') {
        n.word_wrap == !o.word_wrap && n.mode == o.mode
    } else if is_theme_key(key) {
        n.mode == o.mode && (o.theme_count > 0 ==> n.theme_index == if o.theme_index + 1
            < o.theme_count {
            o.theme_index + 1
        } else {
            0
        })
    } else if is_ctrl(key, 'f') {
        n.mode is Search && n.mode->Search_query@.len() == 0 && !n.mode->Search_case_sensitive
            && !n.mode->Search_backward
    } else if is_ctrl(key, '\\') {
        n.mode is Replace && n.mode->Replace_search@.len() == 0
            && n.mode->Replace_replace@.len() == 0 && !n.mode->Replace_case_sensitive
            && !n.mode->Replace_all && !n.mode->Replace_confirmed
    } else {
        n.mode is GoToLine && n.mode->GoToLine_input@.len() == 0
    }
}

/// What undo (Ctrl+Z) and redo (Ctrl+Y) do in Normal mode: on success the
/// cursor goes to the start of the document.
pub open spec fn history_outcome(o: Editor, n: Editor, key: KeyEvent) -> bool {
    let t = o.text();
    let stay = settled(o, n, o.cursor_line as int, o.cursor_col as int);
    &&& keeps_session(o, n)
    &&& if is_ctrl(key, 'z') {
        if o.undo.cursor() > 0 && fits_revert(t, o.undo.entries()[o.undo.cursor() - 1]) {
            n.undo.cursor() == o.undo.cursor() - 1 && n.text() == revert_op(
                t,
                o.undo.entries()[o.undo.cursor() - 1],
            ) && n.undo.entries() == o.undo.entries() && settled(o, n, 0, 0)
        } else {
            keeps_document(o, n) && stay
        }
    } else {
        if o.undo.cursor() < o.undo.entries().len() && fits_apply(
            t,
            o.undo.entries()[o.undo.cursor()],
        ) {
            n.undo.cursor() == o.undo.cursor() + 1 && n.text() == apply_op(
                t,
                o.undo.entries()[o.undo.cursor()],
            ) && n.undo.entries() == o.undo.entries() && settled(o, n, 0, 0)
        } else {
            keeps_document(o, n) && stay
        }
    }
}

/// Where a motion key takes the cursor (before it is clamped).
pub open spec fn motion_target(o: Editor, key: KeyEvent) -> (int, int) {
    let t = o.text();
    let l = o.cursor_line as int;
    let c = o.cursor_col as int;
    let start = line_start(t, l);
    let p = start + c;
    let step = if o.screen_height >= 2 { o.screen_height - 2 } else { 0 };
    if key.code == KeyCode::Up || key.code == KeyCode::Down {
        let tl = if key.code == KeyCode::Up {
            if l > 0 { l - 1 } else { l }
        } else {
            if l + 1 < line_count(t) { l + 1 } else { l }
        };
        let ind = indent_of(t, tl).len() as int;
        (tl, if tl != l && c < ind { ind } else { c })
    } else if key.code == KeyCode::Left {
        if c > 0 {
            (l, char_start_before(t, start, p - 1) - start)
        } else if l > 0 {
            (l - 1, line_length(t, l - 1))
        } else {
            (l, c)
        }
    } else if key.code == KeyCode::Right {
        if c < line_length(t, l) {
            (l, char_end_after(t, start + line_length(t, l), p + 1) - start)
        } else if l + 1 < line_count(t) {
            (l + 1, 0)
        } else {
            (l, c)
        }
    } else if key.code == KeyCode::Home {
        let ind = indent_of(t, l).len() as int;
        (l, if c > ind { ind } else { 0 })
    } else if key.code == KeyCode::End {
        (l, line_length(t, l))
    } else if key.code == KeyCode::PageUp {
        (if l > step { l - step } else { 0 }, c)
    } else {
        (min_int(l + step, line_count(t) - 1), c)
    }
}

/// A key that takes text out.
pub open spec fn is_delete_key(key: KeyEvent) -> bool {
    key.code == KeyCode::Backspace || is_ctrl(key, 'k') || is_ctrl(key, 'u') || is_ctrl(key, 'd')
}

/// What a key that takes text out does; every change is logged.
pub open spec fn delete_outcome(o: Editor, n: Editor, key: KeyEvent) -> bool {
    let t = o.text();
    let l = o.cursor_line as int;
    let c = o.cursor_col as int;
    let start = line_start(t, l);
    let p = start + c;
    let stay = settled(o, n, l, c);
    &&& keeps_session(o, n)
    &&& if key.code == KeyCode::Backspace {
        if c > 0 {
            let q = char_start_before(t, start, p - 1);
            logged_delete(o, n, q, p) && settled(o, n, l, q - start)
        } else if l > 0 {
            logged_delete(o, n, p - 1, p) && settled(o, n, l - 1, line_length(t, l - 1))
        } else {
            keeps_document(o, n) && stay
        }
    } else if is_ctrl(key, 'k') {
        if line_count(t) > 1 {
            logged_delete(o, n, start, min_int(start + line_length(t, l) + 1, t.len() as int))
                && stay
        } else {
            keeps_document(o, n) && stay
        }
    } else if is_ctrl(key, 'u') {
        if c > 0 {
            logged_delete(o, n, start, p) && settled(o, n, l, 0)
        } else {
            keeps_document(o, n) && stay
        }
    } else {
        if p + 1 < t.len() {
            logged_delete(o, n, p, char_end_after(t, t.len() as int, p + 1)) && stay
        } else {
            keeps_document(o, n) && stay
        }
    }
}

/// What a key that puts text in does: Enter splits the line (copying its
/// indent when auto-indent is on), Tab puts spaces or a tab, and a character
/// key its character; every change is logged. Other keys do nothing.
pub open spec fn insert_outcome(o: Editor, n: Editor, key: KeyEvent) -> bool {
    let t = o.text();
    let l = o.cursor_line as int;
    let c = o.cursor_col as int;
    &&& keeps_session(o, n)
    &&& if key.code == KeyCode::Enter {
        let ind = if o.settings.auto_indent { indent_of(t, l) } else { Seq::empty() };
        typed_outcome(o, n, seq![10u8] + ind, l + 1, ind.len() as int)
    } else if key.code == KeyCode::Tab {
        let ins = if o.settings.use_spaces {
            Seq::new(o.settings.tab_size as nat, |i: int| 32u8)
        } else {
            seq![9u8]
        };
        typed_outcome(o, n, ins, l, c + ins.len())
    } else if typed_char(key) is Some {
        let ins = encode_utf8(seq![typed_char(key)->0]);
        typed_outcome(o, n, ins, l, c + ins.len())
    } else {
        keeps_document(o, n) && settled(o, n, l, c)
    }
}

/// What a key does in Normal mode.
#[verifier::opaque]
pub open spec fn normal_outcome(o: Editor, n: Editor, key: KeyEvent) -> bool {
    if is_command_key(key) {
        command_outcome(o, n, key)
    } else if is_history_key(key) {
        history_outcome(o, n, key)
    } else if is_motion_key(key) {
        let target = motion_target(o, key);
        keeps_document(o, n) && keeps_session(o, n) && settled(o, n, target.0, target.1)
    } else if is_delete_key(key) {
        delete_outcome(o, n, key)
    } else {
        insert_outcome(o, n, key)
    }
}

/// How long the cursor stays in one blink phase.
pub const BLINK_INTERVAL_MS: u64 = 500;

/// The line that a go-to-line entry of `k` lands on: clamped to the document.
pub open spec fn goto_target_line(t: Seq<u8>, k: int) -> int {
    if k <= 0 {
        0
    } else {
        min_int(k, line_count(t)) - 1
    }
}

/// What carrying out step `s` does: its effect on the document and cursor,
/// then its action; the actions that need the outside world come back as
/// `r`, the others are done here.
#[verifier::opaque]
pub open spec fn applied(o: Editor, s: Step, n: Editor, r: Option<PendingAction>) -> bool {
    let t = o.text();
    let l = o.cursor_line as int;
    let c = o.cursor_col as int;
    &&& n.mode == s.mode
    &&& n.quit_after_save == (o.quit_after_save || s.quit_after_save)
    &&& n.settings == o.settings
    &&& n.pending_action is None
    &&& match s.effect {
        Effect::Nothing => match s.action {
            Some(PendingAction::ReplaceAll(a, b)) => n.text() == replaced(
                t,
                encode_utf8(a@),
                encode_utf8(b@),
            ) && n.undo.entries().len() == 0 && settled(o, n, l, c) && r is None
                && n.should_quit == o.should_quit,
            Some(PendingAction::QuitWithoutSave) => n.text() == t && !n.buffer.is_modified
                && n.should_quit && n.cursor_line == o.cursor_line && n.cursor_col == o.cursor_col
                && r is None,
            _ => keeps_document(o, n) && n.cursor_line == o.cursor_line && n.cursor_col
                == o.cursor_col && n.scroll_offset == o.scroll_offset && r == s.action
                && n.should_quit == o.should_quit,
        },
        Effect::Find(q) => keeps_document(o, n) && r is None && n.should_quit == o.should_quit
            && match search_from(t, encode_utf8(q@), offset_of(t, l, c)) {
            Some(off) => exists|fl: int, fc: int| #[trigger] is_line_col(t, off, fl, fc) && settled(o, n, fl, fc),
            None => n.cursor_line == o.cursor_line && n.cursor_col == o.cursor_col
                && n.scroll_offset == o.scroll_offset,
        },
        Effect::ReplaceNow(a, b) => n.text() == replaced(t, encode_utf8(a@), encode_utf8(b@))
            && n.undo.entries().len() == 0 && settled(o, n, l, c) && r is None && n.should_quit
            == o.should_quit,
        Effect::GoTo(k) => keeps_document(o, n) && settled(o, n, goto_target_line(t, k as int), 0)
            && r is None && n.should_quit == o.should_quit,
    }
}

/// Two states that agree on what an outcome reads about the state before.
pub open spec fn same_before(a: Editor, b: Editor) -> bool {
    &&& a.buffer == b.buffer
    &&& a.undo == b.undo
    &&& a.cursor_line == b.cursor_line
    &&& a.cursor_col == b.cursor_col
    &&& a.scroll_offset == b.scroll_offset
    &&& a.screen_height == b.screen_height
    &&& a.settings == b.settings
    &&& a.should_quit == b.should_quit
    &&& a.quit_after_save == b.quit_after_save
    &&& a.pending_action == b.pending_action
    &&& a.show_help == b.show_help
    &&& a.show_line_numbers == b.show_line_numbers
    &&& a.word_wrap == b.word_wrap
    &&& a.theme_index == b.theme_index
    &&& a.theme_count == b.theme_count
}

proof fn lemma_normal_frame(a: Editor, b: Editor, n: Editor, key: KeyEvent)
    requires
        same_before(a, b),
        a.mode == b.mode,
        normal_outcome(a, n, key),
    ensures
        normal_outcome(b, n, key),
{
    reveal(normal_outcome);
}

proof fn lemma_applied_frame(a: Editor, b: Editor, s: Step, n: Editor, r: Option<PendingAction>)
    requires
        same_before(a, b),
        applied(a, s, n, r),
    ensures
        applied(b, s, n, r),
{
    reveal(applied);
}

impl Editor {
    /// The document's bytes.
    pub open spec fn text(&self) -> Seq<u8> {
        self.buffer.bytes()
    }

    /// Between two keys: well formed, with no action waiting.
    pub open spec fn idle(&self) -> bool {
        self.wf() && self.pending_action is None
    }

    pub open spec fn wf(&self) -> bool {
        &&& self.buffer.wf()
        &&& self.undo.wf()
        &&& valid_cursor(self.text(), self.cursor_line as int, self.cursor_col as int)
        &&& mode_wf(self.mode)
        &&& consistent(self.origin@, self.undo.entries(), self.undo.cursor(), self.text())
    }

    /// An editor on `buffer`, with the cursor at the start and nothing to undo.
    pub fn new(buffer: Buffer, settings: Settings, width: usize, height: usize) -> (r: Editor)
        requires
            buffer.wf(),
        ensures
            r.idle(),
            r.buffer == buffer,
            r.settings == settings,
            r.cursor_line == 0 && r.cursor_col == 0 && r.scroll_offset == 0,
            r.undo.entries().len() == 0,
            r.mode is Normal,
            r.pending_action is None,
            !r.should_quit && !r.quit_after_save,
            r.screen_width == width && r.screen_height == height,
    {
        proof {
            lemma_line_index(buffer.bytes());
        }
        let ghost t = buffer.bytes();
        let show_help = settings.show_help;
        let show_line_numbers = settings.show_line_numbers;
        let word_wrap = settings.word_wrap;
        Editor {
            buffer,
            cursor_line: 0,
            cursor_col: 0,
            scroll_offset: 0,
            settings,
            show_help,
            show_line_numbers,
            word_wrap,
            should_quit: false,
            undo: UndoHistory::new(),
            mode: EditorMode::Normal,
            pending_action: None,
            quit_after_save: false,
            cursor_blink_on: true,
            blink_elapsed_ms: 0,
            screen_width: width,
            screen_height: height,
            theme_index: 0,
            theme_count: 1,
            tip_requested: false,
            origin: Ghost(t),
        }
    }

    /// Moves the cursor into the document.
    pub fn clamp_cursor(&mut self)
        requires
            old(self).buffer.wf(),
        ensures
            (final(self).cursor_line as int, final(self).cursor_col as int) == clamp_cursor_spec(
                old(self).text(),
                old(self).cursor_line as int,
                old(self).cursor_col as int,
            ),
            valid_cursor(final(self).text(), final(self).cursor_line as int, final(self).cursor_col as int),
            final(self).buffer == old(self).buffer,
            final(self).undo == old(self).undo,
            final(self).scroll_offset == old(self).scroll_offset,
            final(self).origin == old(self).origin,
            keeps_session(*old(self), *final(self)),
    {
        let (l, c) = clamped(&self.buffer, self.cursor_line, self.cursor_col);
        self.cursor_line = l;
        self.cursor_col = c;
    }

    /// Moves the view so that the cursor line shows.
    pub fn update_scroll(&mut self)
        requires
            old(self).buffer.wf(),
        ensures
            final(self).scroll_offset == scroll_spec(
                old(self).cursor_line as int,
                old(self).scroll_offset as int,
                old(self).screen_height as int,
                line_count(old(self).text()),
            ),
            final(self).buffer == old(self).buffer,
            final(self).undo == old(self).undo,
            final(self).cursor_line == old(self).cursor_line,
            final(self).cursor_col == old(self).cursor_col,
            final(self).origin == old(self).origin,
            keeps_session(*old(self), *final(self)),
    {
        let n = self.buffer.num_lines();
        self.scroll_offset = scroll_for(self.cursor_line, self.scroll_offset, self.screen_height, n);
    }

    /// Puts the cursor at (`l`, `c`) moved into the document, and the view on it.
    fn settle(&mut self, l: usize, c: usize)
        requires
            old(self).buffer.wf(),
        ensures
            settled(*old(self), *final(self), l as int, c as int),
            final(self).buffer == old(self).buffer,
            final(self).undo == old(self).undo,
            keeps_session(*old(self), *final(self)),
            final(self).tip_requested == old(self).tip_requested,
            final(self).settings == old(self).settings,
            final(self).origin == old(self).origin,
            valid_cursor(final(self).text(), final(self).cursor_line as int, final(self).cursor_col as int),
    {
        let (cl, cc) = clamped(&self.buffer, l, c);
        self.cursor_line = cl;
        self.cursor_col = cc;
        let n = self.buffer.num_lines();
        self.scroll_offset = scroll_for(cl, self.scroll_offset, self.screen_height, n);
    }

    /// Bytes that a key types: its character, encoded.
    fn char_bytes(ch: char) -> (r: Vec<u8>)
        ensures
            r@ == encode_utf8(seq![ch]),
    {
        let s = with_char(String::new(), ch);
        proof {
            assert(s@ =~= seq![ch]);
        }
        s.as_str().as_bytes_vec()
    }

    /// A key in Normal mode: edits, cursor moves, and entering other modes.
    fn handle_normal(&mut self, key: &KeyEvent)
        requires
            old(self).wf(),
        ensures
            final(self).wf(),
            normal_outcome(*old(self), *final(self), *key),
            final(self).settings == old(self).settings,
    {
        reveal(normal_outcome);
        if key.ctrl('h') || key.ctrl('q') || key.ctrl('s') || key.ctrl('o') || key.ctrl('b')
            || key.ctrl('t') || key.ctrl('w') || (key.code == KeyCode::Char('T')
            && key.modifiers.control && key.modifiers.shift && !key.modifiers.alt) || key.ctrl(
            'f',
        ) || key.ctrl('\\') || key.ctrl('g') {
            self.normal_command(key);
        } else if key.ctrl('z') || key.ctrl('y') {
            self.normal_history(key);
        } else if key.code == KeyCode::Up || key.code == KeyCode::Down || key.code == KeyCode::Left
            || key.code == KeyCode::Right || key.code == KeyCode::Home || key.code == KeyCode::End
            || key.code == KeyCode::PageUp || key.code == KeyCode::PageDown {
            self.normal_motion(key);
        } else if key.code == KeyCode::Backspace || key.ctrl('k') || key.ctrl('u') || key.ctrl('d') {
            self.normal_delete(key);
        } else {
            self.normal_insert(key);
        }
    }

    fn normal_command(&mut self, key: &KeyEvent)
        requires
            old(self).wf(),
            is_command_key(*key),
        ensures
            final(self).wf(),
            command_outcome(*old(self), *final(self), *key),
            final(self).settings == old(self).settings,
    {
        if key.ctrl('h') {
            self.tip_requested = true;
            self.mode = EditorMode::Help;
        } else if key.ctrl('q') {
            if self.buffer.path.is_none() {
                self.quit_after_save = true;
                self.mode = save_as_prompt();
            } else if self.buffer.is_modified {
                self.mode = quit_prompt();
            } else {
                self.should_quit = true;
            }
        } else if key.ctrl('s') {
            if self.buffer.path.is_none() {
                self.mode = save_as_prompt();
            } else {
                self.pending_action = Some(PendingAction::Save);
            }
        } else if key.ctrl('o') {
            self.pending_action = Some(PendingAction::OpenFile);
        } else if key.ctrl('b') {
            self.show_line_numbers = !self.show_line_numbers;
        } else if key.ctrl('t') {
            self.show_help = !self.show_help;
        } else if key.ctrl('w') {
            self.word_wrap = !self.word_wrap;
        } else if key.code == KeyCode::Char('T') && key.modifiers.control && key.modifiers.shift
            && !key.modifiers.alt {
            if self.theme_count > 0 {
                self.theme_index = if self.theme_index < self.theme_count - 1 {
                    self.theme_index + 1
                } else {
                    0
                };
            }
        } else if key.ctrl('f') {
            self.mode = EditorMode::Search { query: String::new(), case_sensitive: false, backward: false };
        } else if key.ctrl('\\') {
            self.mode = EditorMode::Replace {
                search: String::new(),
                replace: String::new(),
                case_sensitive: false,
                all: false,
                confirmed: false,
            };
        } else {
            self.mode = EditorMode::GoToLine { input: String::new() };
        }
        let l = self.cursor_line;
        let c = self.cursor_col;
        self.settle(l, c);
    }

    fn normal_history(&mut self, key: &KeyEvent)
        requires
            old(self).wf(),
            is_history_key(*key),
        ensures
            final(self).wf(),
            history_outcome(*old(self), *final(self), *key),
            final(self).settings == old(self).settings,
    {
        let mut tl = self.cursor_line;
        let mut tc = self.cursor_col;
        proof {
            let es = self.undo.entries();
            let c = self.undo.cursor();
            if c > 0 {
                lemma_undo_consistent(self.origin@, es, c, self.text());
            }
            if c < es.len() {
                lemma_redo_consistent(self.origin@, es, c, self.text());
            }
        }
        let done = if key.ctrl('z') {
            self.undo.undo(&mut self.buffer)
        } else {
            self.undo.redo(&mut self.buffer)
        };
        if done {
            tl = 0;
            tc = 0;
        }
        self.settle(tl, tc);
    }

    fn normal_motion(&mut self, key: &KeyEvent)
        requires
            old(self).wf(),
            is_motion_key(*key),
        ensures
            final(self).wf(),
            ({
                let target = motion_target(*old(self), *key);
                keeps_document(*old(self), *final(self)) && keeps_session(*old(self), *final(self))
                    && settled(*old(self), *final(self), target.0, target.1)
            }),
            final(self).settings == old(self).settings,
    {
        let ghost t = self.text();
        let l = self.cursor_line;
        let c = self.cursor_col;
        proof {
            lemma_line_index(t);
            lemma_line_shape(t, l as int);
        }
        let n = self.buffer.num_lines();
        let total = self.buffer.total_len();
        let start = self.buffer.get_cursor_pos(l, 0);
        let p = start + c;
        let len = self.buffer.line_len(l);
        let mut tl = l;
        let mut tc = c;
        if key.code == KeyCode::Up || key.code == KeyCode::Down {
            if key.code == KeyCode::Up {
                if l > 0 {
                    tl = l - 1;
                }
            } else if l + 1 < n {
                tl = l + 1;
            }
            if tl != l {
                let ind = get_indent(&self.buffer, tl).len();
                if c < ind {
                    tc = ind;
                }
            }
        } else if key.code == KeyCode::Left {
            if c > 0 {
                tc = char_start(&self.buffer, start, p - 1) - start;
            } else if l > 0 {
                tl = l - 1;
                tc = self.buffer.line_len(l - 1);
            }
        } else if key.code == KeyCode::Right {
            if c < len {
                tc = char_end(&self.buffer, start + len, p + 1) - start;
            } else if l + 1 < n {
                tl = l + 1;
                tc = 0;
            }
        } else if key.code == KeyCode::Home {
            let ind = get_indent(&self.buffer, l).len();
            tc = if c > ind { ind } else { 0 };
        } else if key.code == KeyCode::End {
            tc = len;
        } else if key.code == KeyCode::PageUp {
            let step = if self.screen_height >= 2 { self.screen_height - 2 } else { 0 };
            tl = if l > step { l - step } else { 0 };
        } else {
            let step = if self.screen_height >= 2 { self.screen_height - 2 } else { 0 };
            tl = if step < n - 1 - l { l + step } else { n - 1 };
        }
        self.settle(tl, tc);
    }

    #[verifier::rlimit(40)]
    fn normal_insert(&mut self, key: &KeyEvent)
        requires
            old(self).wf(),
        ensures
            final(self).wf(),
            insert_outcome(*old(self), *final(self), *key),
            final(self).settings == old(self).settings,
    {
        let ghost t = self.text();
        let l = self.cursor_line;
        let c = self.cursor_col;
        proof {
            lemma_line_index(t);
            lemma_line_shape(t, l as int);
        }
        let n = self.buffer.num_lines();
        let total = self.buffer.total_len();
        let start = self.buffer.get_cursor_pos(l, 0);
        let p = start + c;
        let len = self.buffer.line_len(l);
        let mut tl = l;
        let mut tc = c;
        if key.code == KeyCode::Enter {
            let ind = if self.settings.auto_indent { get_indent(&self.buffer, l) } else { Vec::new() };
            let mut ins: Vec<u8> = Vec::new();
            ins.push(10u8);
            let mut i: usize = 0;
            while i < ind.len()
                invariant
                    i <= ind@.len(),
                    ins@ == seq![10u8] + ind@.take(i as int),
                decreases ind@.len() - i,
            {
                ins.push(ind[i]);
                i = i + 1;
                proof {
                    assert(ins@ =~= seq![10u8] + ind@.take(i as int));
                }
            }
            proof {
                assert(ind@.take(ind@.len() as int) =~= ind@);
            }
            if ins.len() <= usize::MAX - total {
                insert_recorded(&mut self.buffer, &mut self.undo, &mut self.origin, p, ins);
                tl = l + 1;
                tc = ind.len();
            }
        } else if key.code == KeyCode::Tab {
            let mut ins: Vec<u8> = Vec::new();
            if self.settings.use_spaces {
                let mut i: usize = 0;
                while i < self.settings.tab_size
                    invariant
                        i <= self.settings.tab_size,
                        ins@ == Seq::new(i as nat, |k: int| 32u8),
                    decreases self.settings.tab_size - i,
                {
                    ins.push(32u8);
                    i = i + 1;
                    proof {
                        assert(ins@ =~= Seq::new(i as nat, |k: int| 32u8));
                    }
                }
            } else {
                ins.push(9u8);
                proof {
                    assert(ins@ =~= seq![9u8]);
                }
            }
            if ins.len() <= usize::MAX - total {
                let k = ins.len();
                insert_recorded(&mut self.buffer, &mut self.undo, &mut self.origin, p, ins);
                tc = c + k;
            }
        } else if let Some(ch) = key.typed() {
            let ins = Self::char_bytes(ch);
            if ins.len() <= usize::MAX - total {
                let k = ins.len();
                insert_recorded(&mut self.buffer, &mut self.undo, &mut self.origin, p, ins);
                tc = c + k;
            }
        }
        self.settle(tl, tc);
    }

    #[verifier::rlimit(40)]
    fn normal_delete(&mut self, key: &KeyEvent)
        requires
            old(self).wf(),
            is_delete_key(*key),
        ensures
            final(self).wf(),
            delete_outcome(*old(self), *final(self), *key),
            final(self).settings == old(self).settings,
    {
        let ghost t = self.text();
        let l = self.cursor_line;
        let c = self.cursor_col;
        proof {
            lemma_line_index(t);
            lemma_line_shape(t, l as int);
        }
        let n = self.buffer.num_lines();
        let total = self.buffer.total_len();
        let start = self.buffer.get_cursor_pos(l, 0);
        let p = start + c;
        let len = self.buffer.line_len(l);
        let mut tl = l;
        let mut tc = c;
        if key.code == KeyCode::Backspace {
            if c > 0 {
                let q = char_start(&self.buffer, start, p - 1);
                delete_recorded(&mut self.buffer, &mut self.undo, &mut self.origin, q, p);
                tc = q - start;
            } else if l > 0 {
                let prev = self.buffer.line_len(l - 1);
                delete_recorded(&mut self.buffer, &mut self.undo, &mut self.origin, p - 1, p);
                tl = l - 1;
                tc = prev;
            }
        } else if key.ctrl('k') {
            if n > 1 {
                let e = if len < total - start { start + len + 1 } else { total };
                delete_recorded(&mut self.buffer, &mut self.undo, &mut self.origin, start, e);
            }
        } else if key.ctrl('u') {
            if c > 0 {
                delete_recorded(&mut self.buffer, &mut self.undo, &mut self.origin, start, p);
                tc = 0;
            }
        } else {
            if p < total && p + 1 < total {
                let e = char_end(&self.buffer, total, p + 1);
                delete_recorded(&mut self.buffer, &mut self.undo, &mut self.origin, p, e);
            }
        }
        self.settle(tl, tc);
    }

    /// Puts the cursor on the 1-based line `line_num`, clamped to the document.
    pub fn goto_line(&mut self, line_num: usize)
        requires
            old(self).wf(),
        ensures
            final(self).wf(),
            settled(*old(self), *final(self), goto_target_line(old(self).text(), line_num as int), 0),
            keeps_document(*old(self), *final(self)),
            keeps_session(*old(self), *final(self)),
            final(self).settings == old(self).settings,
            final(self).origin == old(self).origin,
    {
        let n = self.buffer.num_lines();
        let target = if line_num == 0 {
            0
        } else if line_num < n {
            line_num - 1
        } else {
            n - 1
        };
        self.settle(target, 0);
    }

    /// Carries out a step of the mode machine: its effect, then its action.
    pub fn apply_step(&mut self, step: Step) -> (r: Option<PendingAction>)
        requires
            old(self).idle(),
            mode_wf(step.mode),
            step.effect is Nothing || step.action is None,
        ensures
            final(self).idle(),
            applied(*old(self), step, *final(self), r),
    {
        reveal(applied);
        let l = self.cursor_line;
        let c = self.cursor_col;
        self.mode = step.mode;
        if step.quit_after_save {
            self.quit_after_save = true;
        }
        match step.effect {
            Effect::Nothing => {},
            Effect::Find(q) => {
                if let Some((fl, fc)) = self.buffer.find(q.as_str(), l, c) {
                    self.settle(fl, fc);
                }
            },
            Effect::ReplaceNow(a, b) => {
                self.buffer.replace(a.as_str(), b.as_str());
                self.undo.clear();
                self.origin = Ghost(self.text());
                self.settle(l, c);
            },
            Effect::GoTo(k) => {
                self.goto_line(k);
            },
        }
        match step.action {
            Some(PendingAction::ReplaceAll(a, b)) => {
                self.buffer.replace(a.as_str(), b.as_str());
                self.undo.clear();
                self.origin = Ghost(self.text());
                self.settle(l, c);
                None
            },
            Some(PendingAction::QuitWithoutSave) => {
                self.buffer.is_modified = false;
                self.should_quit = true;
                None
            },
            other => other,
        }
    }

    /// Handles one key event. Releases are ignored. What needs the outside
    /// world (saving, opening a file) comes back for the caller to do.
    pub fn handle_key(&mut self, key: &KeyEvent) -> (r: Option<PendingAction>)
        requires
            old(self).idle(),
        ensures
            final(self).idle(),
            key.kind != KeyKind::Press ==> *final(self) == *old(self) && r is None,
            key.kind == KeyKind::Press && old(self).mode is Normal ==> normal_outcome(
                *old(self),
                (Editor { pending_action: r, ..*final(self) }),
                *key,
            ),
            key.kind == KeyKind::Press && !(old(self).mode is Normal) ==> exists|s: Step|
                #[trigger] mode_outcome(
                    old(self).mode,
                    *key,
                    old(self).buffer.path is Some,
                    lossy_text(line_content(old(self).text(), old(self).cursor_line as int)),
                    s,
                ) && applied(*old(self), s, (Editor { pending_action: None, ..*final(self) }), r),
    {
        if key.kind != KeyKind::Press {
            return None;
        }
        if let EditorMode::Normal = self.mode {
            self.key_in_normal(key)
        } else {
            self.key_in_mode(key)
        }
    }

    fn key_in_normal(&mut self, key: &KeyEvent) -> (r: Option<PendingAction>)
        requires
            old(self).idle(),
            old(self).mode is Normal,
        ensures
            final(self).idle(),
            normal_outcome(*old(self), (Editor { pending_action: r, ..*final(self) }), *key),
    {
        let ghost o = *self;
        self.cursor_blink_on = true;
        self.blink_elapsed_ms = 0;
        let ghost before = *self;
        self.handle_normal(key);
        let ghost mid = *self;
        let r = self.pending_action.take();
        proof {
            lemma_normal_frame(before, o, mid, *key);
            assert(mid == (Editor { pending_action: r, ..*self }));
        }
        r
    }

    fn key_in_mode(&mut self, key: &KeyEvent) -> (r: Option<PendingAction>)
        requires
            old(self).idle(),
        ensures
            final(self).idle(),
            exists|s: Step|
                #[trigger] mode_outcome(
                    old(self).mode,
                    *key,
                    old(self).buffer.path is Some,
                    lossy_text(line_content(old(self).text(), old(self).cursor_line as int)),
                    s,
                ) && applied(*old(self), s, (Editor { pending_action: None, ..*final(self) }), r),
    {
        let ghost o = *self;
        self.cursor_blink_on = true;
        self.blink_elapsed_ms = 0;
        let mut mode = EditorMode::Normal;
        std::mem::swap(&mut mode, &mut self.mode);
        let line = self.buffer.get_line(self.cursor_line);
        let has_path = self.buffer.path.is_some();
        let ghost mid = *self;
        let step = step_mode(mode, key, has_path, line);
        let ghost s = step;
        let r = self.apply_step(step);
        proof {
            lemma_applied_frame(mid, o, s, *self, r);
            assert(*self == (Editor { pending_action: None, ..*self }));
        }
        r
    }

    /// Records how a save that `handle_key` asked for went: on success the
    /// document is marked saved, and the editor quits when that was asked.
    pub fn finish_save(&mut self, action: &PendingAction, ok: bool)
        requires
            old(self).idle(),
        ensures
            final(self).idle(),
            final(self).text() == old(self).text(),
            final(self).undo == old(self).undo,
            final(self).mode == old(self).mode,
            final(self).cursor_line == old(self).cursor_line,
            final(self).cursor_col == old(self).cursor_col,
            match action {
                PendingAction::Save => final(self).buffer.is_modified == (old(self).buffer.is_modified
                    && !ok) && final(self).should_quit == old(self).should_quit
                    && final(self).buffer.path == old(self).buffer.path
                    && final(self).buffer.language == old(self).buffer.language,
                PendingAction::SaveAndQuit => final(self).buffer.is_modified == (
                old(self).buffer.is_modified && !ok) && final(self).should_quit == (
                old(self).should_quit || ok) && final(self).buffer.path == old(self).buffer.path
                    && final(self).buffer.language == old(self).buffer.language,
                PendingAction::SaveAs(name) => {
                    &&& ok ==> !final(self).buffer.is_modified && final(self).buffer.path == Some(
                        *name,
                    ) && final(self).buffer.language@ == language_of_path(name@)
                    &&& !ok ==> final(self).buffer == old(self).buffer
                    &&& final(self).should_quit == (old(self).should_quit || (ok
                        && old(self).quit_after_save))
                    &&& !final(self).quit_after_save
                },
                _ => *final(self) == *old(self),
            },
    {
        match action {
            PendingAction::Save => {
                if ok {
                    self.buffer.mark_saved();
                }
            },
            PendingAction::SaveAndQuit => {
                if ok {
                    self.buffer.mark_saved();
                    self.should_quit = true;
                }
            },
            PendingAction::SaveAs(name) => {
                if ok {
                    self.buffer.mark_saved_as(name.clone());
                    if self.quit_after_save {
                        self.should_quit = true;
                    }
                }
                self.quit_after_save = false;
            },
            _ => {},
        }
    }

    /// Puts `buffer` in place of the document: the cursor and view go to the
    /// start and the undo log is cleared.
    pub fn open_buffer(&mut self, buffer: Buffer)
        requires
            old(self).idle(),
            buffer.wf(),
        ensures
            final(self).idle(),
            final(self).buffer == buffer,
            final(self).cursor_line == 0 && final(self).cursor_col == 0,
            final(self).scroll_offset == 0,
            final(self).undo.entries().len() == 0,
            keeps_session(*old(self), *final(self)),
    {
        proof {
            lemma_line_index(buffer.bytes());
        }
        self.buffer = buffer;
        self.cursor_line = 0;
        self.cursor_col = 0;
        self.scroll_offset = 0;
        self.undo.clear();
        self.origin = Ghost(self.text());
    }

    /// Advances the blink timer by `elapsed_ms`; past the interval the cursor
    /// changes phase and the timer starts again.
    pub fn update_cursor_blink(&mut self, elapsed_ms: u64)
        ensures
            ({
                let total = old(self).blink_elapsed_ms + elapsed_ms;
                if total > BLINK_INTERVAL_MS {
                    final(self).cursor_blink_on == !old(self).cursor_blink_on
                        && final(self).blink_elapsed_ms == 0
                } else {
                    final(self).cursor_blink_on == old(self).cursor_blink_on
                        && final(self).blink_elapsed_ms == total
                }
            }),
            (Editor { cursor_blink_on: old(self).cursor_blink_on, blink_elapsed_ms: old(self).blink_elapsed_ms, ..*final(self) }) == *old(self),
    {
        if elapsed_ms > BLINK_INTERVAL_MS || self.blink_elapsed_ms > BLINK_INTERVAL_MS - elapsed_ms {
            self.cursor_blink_on = !self.cursor_blink_on;
            self.blink_elapsed_ms = 0;
        } else {
            self.blink_elapsed_ms = self.blink_elapsed_ms + elapsed_ms;
        }
    }
}

/// Undoing every operation that the editor's log holds as done gives back
/// the text the log starts from (the text the editor opened with, or had
/// after its last replace-all); redoing them all after that gives back the
/// current text.
pub proof fn lemma_editor_undo_all(e: Editor)
    requires
        e.wf(),
    ensures
        rewind(e.text(), e.undo.entries().take(e.undo.cursor())) == e.origin@,
        replay(e.origin@, e.undo.entries().take(e.undo.cursor())) == e.text(),
        replay(rewind(e.text(), e.undo.entries().take(e.undo.cursor())), e.undo.entries().take(
            e.undo.cursor(),
        )) == e.text(),
{
    lemma_undo_all_consistent(e.origin@, e.undo.entries(), e.undo.cursor(), e.text());
}

} // verus!
