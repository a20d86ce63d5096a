//! File names shown for a document, and the language tag its extension gives.

use vstd::prelude::*;
use vstd::string::{StrSliceExecFns, StringExecFns};

verus! {

/// `p` without what ends it but names nothing: separators, and `.`
/// components after a separator.
pub open spec fn trim_tail(p: Seq<char>) -> Seq<char>
    decreases p.len(),
{
    if p.len() > 0 && p.last() == '/' {
        trim_tail(p.drop_last())
    } else if p.len() >= 2 && p.last() == '.' && p[p.len() - 2] == '/' {
        trim_tail(p.drop_last())
    } else {
        p
    }
}

/// The index just after the last `c` in `p`, or 0 when `p` holds none.
pub open spec fn after_last(p: Seq<char>, c: char) -> int
    decreases p.len(),
{
    if p.len() == 0 {
        0
    } else if p.last() == c {
        p.len() as int
    } else {
        after_last(p.drop_last(), c)
    }
}

/// The last component of a path.
pub open spec fn base_name(p: Seq<char>) -> Seq<char> {
    let q = trim_tail(p);
    q.subrange(after_last(q, '/'), q.len() as int)
}

/// A component that names a file: not empty, `.` or `..`.
pub open spec fn names_file(n: Seq<char>) -> bool {
    n.len() > 0 && n != seq!['.'] && n != seq!['.', '.']
}

/// The extension of a file name: what follows its last dot, when that dot is
/// not its first character.
pub open spec fn extension_of(n: Seq<char>) -> Option<Seq<char>> {
    if names_file(n) && after_last(n, '.') > 1 {
        Some(n.subrange(after_last(n, '.'), n.len() as int))
    } else {
        None
    }
}

/// The name shown for a document.
pub open spec fn shown_name(path: Option<Seq<char>>) -> Seq<char> {
    match path {
        Some(p) => if names_file(base_name(p)) {
            base_name(p)
        } else {
            "[No Name]"@
        },
        None => "[No Name]"@,
    }
}

/// The language tag of a file extension.
pub open spec fn language_for(e: Seq<char>) -> Seq<char> {
    if e == "rs"@ {
        "rust"@
    } else if e == "js"@ || e == "mjs"@ || e == "cjs"@ {
        "javascript"@
    } else if e == "ts"@ || e == "mts"@ || e == "cts"@ {
        "typescript"@
    } else if e == "py"@ || e == "pyw"@ {
        "python"@
    } else if e == "rb"@ {
        "ruby"@
    } else if e == "go"@ {
        "go"@
    } else if e == "java"@ {
        "java"@
    } else if e == "c"@ || e == "h"@ {
        "c"@
    } else if e == "cpp"@ || e == "cc"@ || e == "cxx"@ || e == "hpp"@ || e == "hh"@ {
        "cpp"@
    } else if e == "cs"@ {
        "csharp"@
    } else if e == "php"@ {
        "php"@
    } else if e == "sh"@ || e == "bash"@ || e == "zsh"@ || e == "fish"@ {
        "bash"@
    } else if e == "json"@ {
        "json"@
    } else if e == "yaml"@ || e == "yml"@ {
        "yaml"@
    } else if e == "toml"@ {
        "toml"@
    } else if e == "xml"@ {
        "xml"@
    } else if e == "html"@ || e == "htm"@ {
        "html"@
    } else if e == "css"@ {
        "css"@
    } else if e == "md"@ || e == "markdown"@ {
        "markdown"@
    } else if e == "sql"@ {
        "sql"@
    } else if e == "lua"@ {
        "lua"@
    } else if e == "swift"@ {
        "swift"@
    } else if e == "kt"@ || e == "kts"@ {
        "kotlin"@
    } else {
        "plaintext"@
    }
}

/// The language tag of a path, from the extension of its last component.
pub open spec fn language_of_path(p: Seq<char>) -> Seq<char> {
    match extension_of(base_name(p)) {
        Some(e) => language_for(e),
        None => "plaintext"@,
    }
}

/// Whether two texts hold the same characters.
pub fn same_text(a: &str, b: &str) -> (r: bool)
    ensures
        r == (a@ == b@),
{
    let n = a.unicode_len();
    if n != b.unicode_len() {
        return false;
    }
    let mut i: usize = 0;
    while i < n
        invariant
            n == a@.len(),
            n == b@.len(),
            i <= n,
            a@.take(i as int) == b@.take(i as int),
        decreases n - i,
    {
        if a.get_char(i) != b.get_char(i) {
            return false;
        }
        proof {
            assert(a@.take(i + 1) =~= a@.take(i as int).push(a@[i as int]));
            assert(b@.take(i + 1) =~= b@.take(i as int).push(b@[i as int]));
        }
        i = i + 1;
    }
    proof {
        assert(a@ =~= a@.take(n as int));
        assert(b@ =~= b@.take(n as int));
    }
    true
}

/// The index just after the last `c` in the first `end` characters of `s`.
fn find_after_last(s: &str, end: usize, c: char) -> (r: usize)
    requires
        end <= s@.len(),
    ensures
        r == after_last(s@.take(end as int), c),
        r <= end,
{
    let mut k: usize = end;
    while k > 0
        invariant
            k <= end,
            end <= s@.len(),
            after_last(s@.take(end as int), c) == after_last(s@.take(k as int), c),
        decreases k,
    {
        proof {
            assert(s@.take(k as int).drop_last() =~= s@.take(k - 1));
        }
        if s.get_char(k - 1) == c {
            return k;
        }
        k = k - 1;
    }
    0
}

/// The length of the path once what ends it but names nothing is gone.
fn trimmed_len(s: &str) -> (r: usize)
    ensures
        r <= s@.len(),
        s@.take(r as int) == trim_tail(s@),
{
    let mut k: usize = s.unicode_len();
    proof {
        assert(s@.take(k as int) =~= s@);
    }
    while k > 0 && (s.get_char(k - 1) == '/' || (k >= 2 && s.get_char(k - 1) == '.' && s.get_char(
        k - 2,
    ) == '/'))
        invariant
            k <= s@.len(),
            trim_tail(s@.take(k as int)) == trim_tail(s@),
        decreases k,
    {
        proof {
            assert(s@.take(k as int).drop_last() =~= s@.take(k - 1));
        }
        k = k - 1;
    }
    k
}

/// The last component of `path`.
pub fn base_name_of(path: &str) -> (r: String)
    ensures
        r@ == base_name(path@),
{
    let end = trimmed_len(path);
    let start = find_after_last(path, end, '/');
    let r = String::from_str(path.substring_char(start, end));
    proof {
        assert(r@ =~= base_name(path@));
    }
    r
}

/// Whether a component names a file.
fn is_file_name(n: &str) -> (r: bool)
    ensures
        r == names_file(n@),
{
    proof {
        reveal_strlit(".");
        reveal_strlit("..");
        assert(seq!['.'] =~= "."@);
        assert(seq!['.', '.'] =~= ".."@);
    }
    n.unicode_len() > 0 && !same_text(n, ".") && !same_text(n, "..")
}

/// The name shown for a document with this path.
pub fn display_name(path: &Option<String>) -> (r: String)
    ensures
        r@ == shown_name(
            match path {
                Some(p) => Some(p@),
                None => None,
            },
        ),
{
    match path {
        Some(p) => {
            let n = base_name_of(p.as_str());
            if is_file_name(n.as_str()) {
                n
            } else {
                String::from_str("[No Name]")
            }
        },
        None => String::from_str("[No Name]"),
    }
}

/// The language tag of an extension.
fn language_tag(e: &str) -> (r: String)
    ensures
        r@ == language_for(e@),
{
    let tag = if same_text(e, "rs") {
        "rust"
    } else if same_text(e, "js") || same_text(e, "mjs") || same_text(e, "cjs") {
        "javascript"
    } else if same_text(e, "ts") || same_text(e, "mts") || same_text(e, "cts") {
        "typescript"
    } else if same_text(e, "py") || same_text(e, "pyw") {
        "python"
    } else if same_text(e, "rb") {
        "ruby"
    } else if same_text(e, "go") {
        "go"
    } else if same_text(e, "java") {
        "java"
    } else if same_text(e, "c") || same_text(e, "h") {
        "c"
    } else if same_text(e, "cpp") || same_text(e, "cc") || same_text(e, "cxx") || same_text(
        e,
        "hpp",
    ) || same_text(e, "hh") {
        "cpp"
    } else if same_text(e, "cs") {
        "csharp"
    } else if same_text(e, "php") {
        "php"
    } else if same_text(e, "sh") || same_text(e, "bash") || same_text(e, "zsh") || same_text(
        e,
        "fish",
    ) {
        "bash"
    } else if same_text(e, "json") {
        "json"
    } else if same_text(e, "yaml") || same_text(e, "yml") {
        "yaml"
    } else if same_text(e, "toml") {
        "toml"
    } else if same_text(e, "xml") {
        "xml"
    } else if same_text(e, "html") || same_text(e, "htm") {
        "html"
    } else if same_text(e, "css") {
        "css"
    } else if same_text(e, "md") || same_text(e, "markdown") {
        "markdown"
    } else if same_text(e, "sql") {
        "sql"
    } else if same_text(e, "lua") {
        "lua"
    } else if same_text(e, "swift") {
        "swift"
    } else if same_text(e, "kt") || same_text(e, "kts") {
        "kotlin"
    } else {
        "plaintext"
    };
    String::from_str(tag)
}

/// The extension of a file name, if it has one.
pub fn extension(n: &str) -> (r: Option<String>)
    ensures
        match r {
            Some(e) => extension_of(n@) == Some(e@),
            None => extension_of(n@).is_none(),
        },
{
    let len = n.unicode_len();
    proof {
        assert(n@.take(len as int) =~= n@);
    }
    let d = find_after_last(n, len, '.');
    if is_file_name(n) && d > 1 {
        Some(String::from_str(n.substring_char(d, len)))
    } else {
        None
    }
}

/// The language tag of a path, from its extension.
pub fn detect_language(path: &str) -> (r: String)
    ensures
        r@ == language_of_path(path@),
{
    let n = base_name_of(path);
    match extension(n.as_str()) {
        Some(e) => language_tag(e.as_str()),
        None => String::from_str("plaintext"),
    }
}

/// `c` with an ASCII capital made small.
pub open spec fn ascii_lower(c: char) -> char {
    if 'A' <= c && c <= 'Z' {
        ((c as u32) + 32) as char
    } else {
        c
    }
}

/// An extension of a file that can be opened, in lower case.
pub open spec fn known_extension(e: Seq<char>) -> bool {
    e == "txt"@ || e == "rs"@ || e == "js"@ || e == "ts"@ || e == "py"@ || e == "go"@ || e
        == "md"@ || e == "json"@ || e == "toml"@ || e == "yaml"@ || e == "c"@ || e == "h"@ || e
        == "cpp"@ || e == "hpp"@ || e == "sh"@ || e == "bash"@ || e == "zsh"@ || e == "html"@
        || e == "css"@ || e == "xml"@
}

/// A path that the open command accepts: its extension, ignoring ASCII case,
/// is a known one.
pub open spec fn openable(p: Seq<char>) -> bool {
    match extension_of(base_name(p)) {
        Some(e) => known_extension(e.map_values(|c: char| ascii_lower(c))),
        None => false,
    }
}

fn lower_ascii(s: &str) -> (r: String)
    ensures
        r@ == s@.map_values(|c: char| ascii_lower(c)),
{
    let n = s.unicode_len();
    let mut r = String::new();
    let mut i: usize = 0;
    while i < n
        invariant
            n == s@.len(),
            i <= n,
            r@ == s@.take(i as int).map_values(|c: char| ascii_lower(c)),
        decreases n - i,
    {
        let c = s.get_char(i);
        let d = if 'A' <= c && c <= 'Z' {
            ((c as u32) + 32) as u8 as char
        } else {
            c
        };
        proof {
            assert(d == ascii_lower(c));
        }
        r = crate::text::with_char(r, d);
        i = i + 1;
        proof {
            assert(r@ =~= s@.take(i as int).map_values(|c: char| ascii_lower(c)));
        }
    }
    proof {
        assert(s@.take(n as int) =~= s@);
    }
    r
}

/// Whether the open command accepts `path`.
pub fn is_openable(path: &str) -> (r: bool)
    ensures
        r == openable(path@),
{
    let n = base_name_of(path);
    match extension(n.as_str()) {
        Some(e) => {
            let l = lower_ascii(e.as_str());
            let e = l.as_str();
            same_text(e, "txt") || same_text(e, "rs") || same_text(e, "js") || same_text(e, "ts")
                || same_text(e, "py") || same_text(e, "go") || same_text(e, "md") || same_text(
                e,
                "json",
            ) || same_text(e, "toml") || same_text(e, "yaml") || same_text(e, "c") || same_text(
                e,
                "h",
            ) || same_text(e, "cpp") || same_text(e, "hpp") || same_text(e, "sh") || same_text(
                e,
                "bash",
            ) || same_text(e, "zsh") || same_text(e, "html") || same_text(e, "css") || same_text(
                e,
                "xml",
            )
        },
        None => false,
    }
}

/// Candidate `i` can be opened: the command accepts its path and it loaded.
pub open spec fn can_open(paths: Seq<String>, loaded: Seq<bool>, i: int) -> bool {
    openable(paths[i]@) && loaded[i]
}

/// The file that the open command takes among `paths`, given which of them
/// loaded: the first that it accepts and that loaded, if any.
pub fn choose_file(paths: &Vec<String>, loaded: &Vec<bool>) -> (r: Option<usize>)
    requires
        paths@.len() == loaded@.len(),
    ensures
        match r {
            Some(i) => i < paths@.len() && can_open(paths@, loaded@, i as int) && forall|j: int|
                0 <= j < i ==> !#[trigger] can_open(paths@, loaded@, j),
            None => forall|j: int| 0 <= j < paths@.len() ==> !#[trigger] can_open(paths@, loaded@, j),
        },
{
    let mut i: usize = 0;
    while i < paths.len()
        invariant
            paths@.len() == loaded@.len(),
            i <= paths@.len(),
            forall|j: int| 0 <= j < i ==> !#[trigger] can_open(paths@, loaded@, j),
        decreases paths@.len() - i,
    {
        if loaded[i] && is_openable(paths[i].as_str()) {
            return Some(i);
        }
        i = i + 1;
    }
    None
}

} // verus!
