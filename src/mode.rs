//! The mode machine: what one key does in each mode other than Normal, as a
//! pure step from the current mode to the next one, with at most one action
//! for the controller.

use vstd::prelude::*;
use vstd::string::{StrSliceExecFns, StringExecFns};
use crate::keys::{is_control, is_control_char, is_ctrl, typed_char, KeyCode, KeyEvent};
use crate::naming::same_text;
use crate::text::{with_char, without_last, without_last_char};

verus! {

/// The active editing mode and the state it owns.
pub enum EditorMode {
    Normal,
    Search { query: String, case_sensitive: bool, backward: bool },
    Replace { search: String, replace: String, case_sensitive: bool, all: bool, confirmed: bool },
    GoToLine { input: String },
    Confirm { title: String, message: String, options: Vec<String>, selected: usize },
    Input { title: String, input: String, history: Vec<String> },
    Help,
}

/// A command that a mode hands to the controller, carried out once.
pub enum PendingAction {
    SaveAndQuit,
    QuitWithoutSave,
    SaveAs(String),
    ReplaceAll(String, String),
    /// Write the document to its path.
    Save,
    /// Pick a file to open in place of the document.
    OpenFile,
}

/// What a step asks of the document and cursor.
pub enum Effect {
    Nothing,
    /// Search for the text from the cursor and jump to the match.
    Find(String),
    /// Replace every match of the first text by the second, now.
    ReplaceNow(String, String),
    /// Jump to this 1-based line.
    GoTo(usize),
}

/// The result of one step.
pub struct Step {
    pub mode: EditorMode,
    pub action: Option<PendingAction>,
    pub effect: Effect,
    /// Quit once the save that the next mode asks for has succeeded.
    pub quit_after_save: bool,
}

/// The prompt for a file name to save under.
pub open spec fn is_save_as_prompt(m: EditorMode) -> bool {
    m is Input && m->Input_title@ == "Save As"@ && m->Input_input@.len() == 0
        && m->Input_history@.len() == 0
}

pub fn save_as_prompt() -> (r: EditorMode)
    ensures
        is_save_as_prompt(r),
{
    EditorMode::Input {
        title: String::from_str("Save As"),
        input: String::new(),
        history: Vec::new(),
    }
}

/// The question asked before quitting a changed document.
pub open spec fn is_quit_prompt(m: EditorMode) -> bool {
    &&& m is Confirm
    &&& m->Confirm_title@ == "Quit"@
    &&& m->Confirm_message@ == "Save changes?"@
    &&& m->Confirm_options@.len() == 3
    &&& m->Confirm_options@[0]@ == "Yes"@
    &&& m->Confirm_options@[1]@ == "No"@
    &&& m->Confirm_options@[2]@ == "Cancel"@
    &&& m->Confirm_selected == 0
}

pub fn quit_prompt() -> (r: EditorMode)
    ensures
        is_quit_prompt(r),
{
    let mut options: Vec<String> = Vec::new();
    options.push(String::from_str("Yes"));
    options.push(String::from_str("No"));
    options.push(String::from_str("Cancel"));
    EditorMode::Confirm {
        title: String::from_str("Quit"),
        message: String::from_str("Save changes?"),
        options,
        selected: 0,
    }
}

/// A step that leaves the mode for Normal and asks for nothing.
pub open spec fn leaves(r: Step) -> bool {
    r.mode is Normal && r.action is None && r.effect is Nothing && !r.quit_after_save
}

/// A step into `m` that asks for nothing.
pub open spec fn stays(r: Step, m: EditorMode) -> bool {
    r.mode == m && r.action is None && r.effect is Nothing && !r.quit_after_save
}

/// What a key does in Search mode.
pub open spec fn search_outcome(query: String, cs: bool, bw: bool, key: KeyEvent, r: Step) -> bool {
    let same = |q: Seq<char>, c: bool, b: bool|
        r.mode is Search && r.mode->Search_query@ == q && r.mode->Search_case_sensitive == c
            && r.mode->Search_backward == b;
    &&& r.action is None
    &&& !r.quit_after_save
    &&& if key.code == KeyCode::Esc {
        leaves(r)
    } else if key.code == KeyCode::Enter {
        r.mode is Normal && if query@.len() > 0 {
            r.effect is Find && r.effect->Find_0@ == query@
        } else {
            r.effect is Nothing
        }
    } else if key.code == KeyCode::Backspace {
        same(without_last(query@), cs, bw) && r.effect is Nothing
    } else if is_ctrl(key, 'c') {
        same(query@, !cs, bw) && r.effect is Nothing
    } else if is_ctrl(key, 'r') {
        same(query@, cs, !bw) && r.effect is Nothing
    } else if typed_char(key) is Some {
        let q = query@.push(typed_char(key)->0);
        same(q, cs, bw) && r.effect is Find && r.effect->Find_0@ == q
    } else {
        same(query@, cs, bw) && r.effect is Nothing
    }
}

/// Search mode: typing extends the query and searches again at once.
pub fn step_search(query: String, case_sensitive: bool, backward: bool, key: &KeyEvent) -> (r: Step)
    ensures
        search_outcome(query, case_sensitive, backward, *key, r),
{
    let mut query = query;
    let mut cs = case_sensitive;
    let mut bw = backward;
    let mut effect = Effect::Nothing;
    if key.code == KeyCode::Esc {
        return Step { mode: EditorMode::Normal, action: None, effect, quit_after_save: false };
    } else if key.code == KeyCode::Enter {
        if query.as_str().unicode_len() > 0 {
            effect = Effect::Find(query);
        }
        return Step { mode: EditorMode::Normal, action: None, effect, quit_after_save: false };
    } else if key.code == KeyCode::Backspace {
        query = without_last_char(&query);
    } else if key.ctrl('c') {
        cs = !cs;
    } else if key.ctrl('r') {
        bw = !bw;
    } else if let Some(c) = key.typed() {
        query = with_char(query, c);
        effect = Effect::Find(query.clone());
    }
    Step {
        mode: EditorMode::Search { query, case_sensitive: cs, backward: bw },
        action: None,
        effect,
        quit_after_save: false,
    }
}

/// What a key does in Replace mode.
pub open spec fn replace_outcome(
    search: String,
    replace: String,
    cs: bool,
    all: bool,
    confirmed: bool,
    line: Seq<char>,
    key: KeyEvent,
    r: Step,
) -> bool {
    let same = |s: Seq<char>, p: Seq<char>, a: bool, c: bool|
        r.mode is Replace && r.mode->Replace_search@ == s && r.mode->Replace_replace@ == p
            && r.mode->Replace_case_sensitive == cs && r.mode->Replace_all == a
            && r.mode->Replace_confirmed == c && r.action is None && r.effect is Nothing;
    &&& !r.quit_after_save
    &&& if key.code == KeyCode::Esc {
        leaves(r)
    } else if key.code == KeyCode::Enter {
        if confirmed && all {
            r.mode is Normal && r.effect is Nothing && (r.action matches Some(
                PendingAction::ReplaceAll(s, p),
            ) && s@ == search@ && p@ == replace@)
        } else if confirmed {
            r.mode is Normal && r.action is None && (r.effect matches Effect::ReplaceNow(s, p)
                && s@ == search@ && p@ == replace@)
        } else {
            same(search@, replace@, all, true)
        }
    } else if key.code == KeyCode::Tab {
        if search@.len() == 0 {
            same(line, replace@, all, confirmed)
        } else {
            same(search@, Seq::empty(), all, confirmed)
        }
    } else if key.code == KeyCode::Backspace {
        if replace@.len() == 0 && search@.len() > 0 {
            same(search@.drop_last(), replace@, all, confirmed)
        } else {
            same(search@, without_last(replace@), all, confirmed)
        }
    } else if is_ctrl(key, 'a') {
        same(search@, replace@, true, confirmed)
    } else if typed_char(key) is Some {
        let c = typed_char(key)->0;
        if confirmed || (replace@.len() == 0 && search@.len() > 0) {
            same(search@, replace@.push(c), all, confirmed)
        } else {
            same(search@.push(c), replace@, all, confirmed)
        }
    } else {
        same(search@, replace@, all, confirmed)
    }
}

/// Replace mode: the first Enter asks for confirmation, the second replaces.
pub fn step_replace(
    search: String,
    replace: String,
    case_sensitive: bool,
    all: bool,
    confirmed: bool,
    line: String,
    key: &KeyEvent,
) -> (r: Step)
    ensures
        replace_outcome(search, replace, case_sensitive, all, confirmed, line@, *key, r),
{
    let mut search = search;
    let mut replace = replace;
    let mut all = all;
    let mut confirmed = confirmed;
    if key.code == KeyCode::Esc {
        return Step {
            mode: EditorMode::Normal,
            action: None,
            effect: Effect::Nothing,
            quit_after_save: false,
        };
    } else if key.code == KeyCode::Enter {
        if confirmed && all {
            return Step {
                mode: EditorMode::Normal,
                action: Some(PendingAction::ReplaceAll(search, replace)),
                effect: Effect::Nothing,
                quit_after_save: false,
            };
        } else if confirmed {
            return Step {
                mode: EditorMode::Normal,
                action: None,
                effect: Effect::ReplaceNow(search, replace),
                quit_after_save: false,
            };
        } else {
            confirmed = true;
        }
    } else if key.code == KeyCode::Tab {
        if search.as_str().unicode_len() == 0 {
            search = line;
        } else {
            replace = String::new();
        }
    } else if key.code == KeyCode::Backspace {
        if replace.as_str().unicode_len() == 0 && search.as_str().unicode_len() > 0 {
            search = without_last_char(&search);
        } else {
            replace = without_last_char(&replace);
        }
    } else if key.ctrl('a') {
        all = true;
    } else if let Some(c) = key.typed() {
        if confirmed || (replace.as_str().unicode_len() == 0 && search.as_str().unicode_len() > 0) {
            replace = with_char(replace, c);
        } else {
            search = with_char(search, c);
        }
    }
    Step {
        mode: EditorMode::Replace { search, replace, case_sensitive, all, confirmed },
        action: None,
        effect: Effect::Nothing,
        quit_after_save: false,
    }
}

/// A decimal digit.
pub open spec fn is_digit(c: char) -> bool {
    '0' <= c && c <= '9'
}

/// The number that a string of decimal digits spells.
pub open spec fn digits_value(s: Seq<char>) -> nat
    decreases s.len(),
{
    if s.len() == 0 {
        0
    } else {
        digits_value(s.drop_last()) * 10 + ((s.last() as u32) - ('0' as u32)) as nat
    }
}

/// The line a go-to-line entry asks for, held to what a `usize` holds.
pub open spec fn goto_target(s: Seq<char>) -> int {
    if digits_value(s) > usize::MAX {
        usize::MAX as int
    } else {
        digits_value(s) as int
    }
}

/// The number that a string of digits spells, held to `usize::MAX`.
pub fn parse_line_number(s: &String) -> (r: usize)
    requires
        forall|i: int| 0 <= i < s@.len() ==> is_digit(#[trigger] s@[i]),
    ensures
        r == goto_target(s@),
{
    let n = s.as_str().unicode_len();
    let mut v: usize = 0;
    let mut i: usize = 0;
    while i < n
        invariant
            n == s@.len(),
            i <= n,
            forall|k: int| 0 <= k < s@.len() ==> is_digit(#[trigger] s@[k]),
            v == goto_target(s@.take(i as int)),
        decreases n - i,
    {
        let c = s.as_str().get_char(i);
        let d = (c as u32 - '0' as u32) as usize;
        proof {
            assert(s@.take(i + 1).drop_last() =~= s@.take(i as int));
            assert(s@.take(i + 1).last() == c);
            assert(is_digit(s@[i as int]));
        }
        let ghost old_value = digits_value(s@.take(i as int));
        if v > (usize::MAX - d) / 10 {
            proof {
                assert(old_value * 10 + d > usize::MAX) by (nonlinear_arith)
                    requires
                        old_value >= v,
                        v > (usize::MAX - d) / 10,
                        d <= 9,
                ;
            }
            v = usize::MAX;
        } else {
            proof {
                if old_value > usize::MAX {
                    assert(v == usize::MAX);
                }
            }
            v = v * 10 + d;
        }
        i = i + 1;
    }
    proof {
        assert(s@.take(n as int) =~= s@);
    }
    v
}

/// What a key does in GoToLine mode.
pub open spec fn goto_outcome(input: String, key: KeyEvent, r: Step) -> bool {
    let same = |s: Seq<char>|
        r.mode is GoToLine && r.mode->GoToLine_input@ == s && r.action is None
            && r.effect is Nothing;
    &&& !r.quit_after_save
    &&& if key.code == KeyCode::Esc {
        leaves(r)
    } else if key.code == KeyCode::Enter {
        r.mode is Normal && r.action is None && if input@.len() > 0 {
            r.effect == Effect::GoTo(goto_target(input@) as usize)
        } else {
            r.effect is Nothing
        }
    } else if key.code == KeyCode::Backspace {
        same(without_last(input@))
    } else if typed_char(key) is Some && is_digit(typed_char(key)->0) {
        same(input@.push(typed_char(key)->0))
    } else {
        same(input@)
    }
}

/// GoToLine mode: digits build a 1-based line number; Enter jumps there.
pub fn step_goto(input: String, key: &KeyEvent) -> (r: Step)
    requires
        forall|i: int| 0 <= i < input@.len() ==> is_digit(#[trigger] input@[i]),
    ensures
        goto_outcome(input, *key, r),
        r.mode matches EditorMode::GoToLine { input } ==> forall|i: int|
            0 <= i < input@.len() ==> is_digit(#[trigger] input@[i]),
{
    let mut input = input;
    if key.code == KeyCode::Esc {
        return Step {
            mode: EditorMode::Normal,
            action: None,
            effect: Effect::Nothing,
            quit_after_save: false,
        };
    } else if key.code == KeyCode::Enter {
        let effect = if input.as_str().unicode_len() > 0 {
            Effect::GoTo(parse_line_number(&input))
        } else {
            Effect::Nothing
        };
        return Step { mode: EditorMode::Normal, action: None, effect, quit_after_save: false };
    } else if key.code == KeyCode::Backspace {
        input = without_last_char(&input);
    } else if let Some(c) = key.typed() {
        if '0' <= c && c <= '9' {
            input = with_char(input, c);
        }
    }
    Step {
        mode: EditorMode::GoToLine { input },
        action: None,
        effect: Effect::Nothing,
        quit_after_save: false,
    }
}

/// What a key does in Confirm mode.
pub open spec fn confirm_outcome(
    title: String,
    message: String,
    options: Vec<String>,
    selected: usize,
    has_path: bool,
    key: KeyEvent,
    r: Step,
) -> bool {
    let same = |sel: int|
        r.mode is Confirm && r.mode->Confirm_title == title && r.mode->Confirm_message == message
            && r.mode->Confirm_options == options && r.mode->Confirm_selected == sel
            && r.action is None && r.effect is Nothing && !r.quit_after_save;
    let chosen = if selected < options@.len() {
        options@[selected as int]@
    } else {
        Seq::empty()
    };
    if key.code == KeyCode::Up {
        same(if selected > 0 { selected - 1 } else { selected as int })
    } else if key.code == KeyCode::Down {
        same(if selected + 1 < options@.len() { selected + 1 } else { selected as int })
    } else if key.code == KeyCode::Enter {
        if chosen == "Yes"@ && has_path {
            r.mode is Normal && r.action == Some(PendingAction::SaveAndQuit) && r.effect is Nothing
                && !r.quit_after_save
        } else if chosen == "Yes"@ {
            is_save_as_prompt(r.mode) && r.action is None && r.effect is Nothing
                && r.quit_after_save
        } else if chosen == "No"@ {
            r.mode is Normal && r.action == Some(PendingAction::QuitWithoutSave)
                && r.effect is Nothing && !r.quit_after_save
        } else {
            leaves(r)
        }
    } else if key.code == KeyCode::Esc {
        leaves(r)
    } else {
        same(selected as int)
    }
}

/// Confirm mode: Up and Down choose among the options, without wrapping;
/// Enter acts on the one chosen.
pub fn step_confirm(
    title: String,
    message: String,
    options: Vec<String>,
    selected: usize,
    has_path: bool,
    key: &KeyEvent,
) -> (r: Step)
    ensures
        confirm_outcome(title, message, options, selected, has_path, *key, r),
{
    let mut selected = selected;
    if key.code == KeyCode::Up {
        if selected > 0 {
            selected = selected - 1;
        }
    } else if key.code == KeyCode::Down {
        if selected < options.len() && selected + 1 < options.len() {
            selected = selected + 1;
        }
    } else if key.code == KeyCode::Enter {
        let (yes, no) = if selected < options.len() {
            (same_text(options[selected].as_str(), "Yes"), same_text(options[selected].as_str(), "No"))
        } else {
            proof {
                reveal_strlit("Yes");
                reveal_strlit("No");
                assert("Yes"@.len() == 3);
                assert("No"@.len() == 2);
                assert(Seq::<char>::empty() != "Yes"@);
                assert(Seq::<char>::empty() != "No"@);
            }
            (false, false)
        };
        if yes && has_path {
            return Step {
                mode: EditorMode::Normal,
                action: Some(PendingAction::SaveAndQuit),
                effect: Effect::Nothing,
                quit_after_save: false,
            };
        } else if yes {
            return Step {
                mode: save_as_prompt(),
                action: None,
                effect: Effect::Nothing,
                quit_after_save: true,
            };
        } else if no {
            return Step {
                mode: EditorMode::Normal,
                action: Some(PendingAction::QuitWithoutSave),
                effect: Effect::Nothing,
                quit_after_save: false,
            };
        } else {
            return Step {
                mode: EditorMode::Normal,
                action: None,
                effect: Effect::Nothing,
                quit_after_save: false,
            };
        }
    } else if key.code == KeyCode::Esc {
        return Step {
            mode: EditorMode::Normal,
            action: None,
            effect: Effect::Nothing,
            quit_after_save: false,
        };
    }
    Step {
        mode: EditorMode::Confirm { title, message, options, selected },
        action: None,
        effect: Effect::Nothing,
        quit_after_save: false,
    }
}

/// What a key does in Input mode.
pub open spec fn input_outcome(title: String, input: String, history: Vec<String>, key: KeyEvent, r: Step) -> bool {
    let same = |s: Seq<char>|
        r.mode is Input && r.mode->Input_title == title && r.mode->Input_input@ == s
            && r.mode->Input_history == history && r.action is None && r.effect is Nothing;
    &&& !r.quit_after_save
    &&& if key.code == KeyCode::Enter {
        r.mode is Normal && r.effect is Nothing && (r.action matches Some(PendingAction::SaveAs(f))
            && f@ == input@)
    } else if key.code == KeyCode::Esc {
        leaves(r)
    } else if key.code == KeyCode::Backspace {
        same(without_last(input@))
    } else if key.code matches KeyCode::Char(c) && !is_control_char(c) {
        same(input@.push(key.code->Char_0))
    } else if key.code == KeyCode::Tab {
        same(input@.push('\t'))
    } else {
        same(input@)
    }
}

/// Input mode: edits a line of text; Enter asks to save under it.
pub fn step_input(title: String, input: String, history: Vec<String>, key: &KeyEvent) -> (r: Step)
    ensures
        input_outcome(title, input, history, *key, r),
{
    let mut input = input;
    if key.code == KeyCode::Enter {
        return Step {
            mode: EditorMode::Normal,
            action: Some(PendingAction::SaveAs(input)),
            effect: Effect::Nothing,
            quit_after_save: false,
        };
    } else if key.code == KeyCode::Esc {
        return Step {
            mode: EditorMode::Normal,
            action: None,
            effect: Effect::Nothing,
            quit_after_save: false,
        };
    } else if key.code == KeyCode::Backspace {
        input = without_last_char(&input);
    } else if let KeyCode::Char(c) = key.code {
        if !is_control(c) {
            input = with_char(input, c);
        }
    } else if key.code == KeyCode::Tab {
        input = with_char(input, '\t');
    }
    Step {
        mode: EditorMode::Input { title, input, history },
        action: None,
        effect: Effect::Nothing,
        quit_after_save: false,
    }
}

/// What a key does in Help mode.
pub open spec fn help_outcome(key: KeyEvent, r: Step) -> bool {
    if key.code == KeyCode::Esc || is_ctrl(key, 'h') {
        leaves(r)
    } else {
        stays(r, EditorMode::Help)
    }
}

pub fn step_help(key: &KeyEvent) -> (r: Step)
    ensures
        help_outcome(*key, r),
{
    let mode = if key.code == KeyCode::Esc || key.ctrl('h') {
        EditorMode::Normal
    } else {
        EditorMode::Help
    };
    Step { mode, action: None, effect: Effect::Nothing, quit_after_save: false }
}

/// Every go-to-line entry holds digits only.
pub open spec fn mode_wf(m: EditorMode) -> bool {
    m matches EditorMode::GoToLine { input } ==> forall|i: int|
        0 <= i < input@.len() ==> is_digit(#[trigger] input@[i])
}

/// What a key does in a mode; Normal is left to the controller and stays.
#[verifier::opaque]
pub open spec fn mode_outcome(mode: EditorMode, key: KeyEvent, has_path: bool, line: Seq<char>, r: Step) -> bool {
    match mode {
        EditorMode::Normal => stays(r, EditorMode::Normal),
        EditorMode::Search { query, case_sensitive, backward } => search_outcome(
            query,
            case_sensitive,
            backward,
            key,
            r,
        ),
        EditorMode::Replace { search, replace, case_sensitive, all, confirmed } =>
            replace_outcome(search, replace, case_sensitive, all, confirmed, line, key, r),
        EditorMode::GoToLine { input } => goto_outcome(input, key, r),
        EditorMode::Confirm { title, message, options, selected } => confirm_outcome(
            title,
            message,
            options,
            selected,
            has_path,
            key,
            r,
        ),
        EditorMode::Input { title, input, history } => input_outcome(title, input, history, key, r),
        EditorMode::Help => help_outcome(key, r),
    }
}

/// One key in any mode but Normal, which stays as it is.
pub fn step_mode(mode: EditorMode, key: &KeyEvent, has_path: bool, line: String) -> (r: Step)
    requires
        mode_wf(mode),
    ensures
        mode_wf(r.mode),
        mode_outcome(mode, *key, has_path, line@, r),
        r.effect is Nothing || r.action is None,
{
    reveal(mode_outcome);
    match mode {
        EditorMode::Normal => Step {
            mode: EditorMode::Normal,
            action: None,
            effect: Effect::Nothing,
            quit_after_save: false,
        },
        EditorMode::Search { query, case_sensitive, backward } => step_search(
            query,
            case_sensitive,
            backward,
            key,
        ),
        EditorMode::Replace { search, replace, case_sensitive, all, confirmed } => step_replace(
            search,
            replace,
            case_sensitive,
            all,
            confirmed,
            line,
            key,
        ),
        EditorMode::GoToLine { input } => step_goto(input, key),
        EditorMode::Confirm { title, message, options, selected } => step_confirm(
            title,
            message,
            options,
            selected,
            has_path,
            key,
        ),
        EditorMode::Input { title, input, history } => step_input(title, input, history, key),
        EditorMode::Help => step_help(key),
    }
}

} // verus!
