//! The language of a document and what starts a comment in it.

use vstd::prelude::*;
use vstd::string::StringExecFns;
use crate::naming::same_text;

verus! {

/// What starts a line comment in a language.
pub open spec fn comment_prefix(lang: Seq<char>) -> Seq<char> {
    if lang == "python"@ || lang == "ruby"@ || lang == "shell"@ || lang == "bash"@ || lang
        == "yaml"@ {
        "#"@
    } else if lang == "rust"@ || lang == "javascript"@ || lang == "typescript"@ || lang == "go"@
        || lang == "java"@ || lang == "c"@ || lang == "cpp"@ || lang == "css"@ || lang
        == "json"@ {
        "//"@
    } else if lang == "html"@ {
        "<!--"@
    } else {
        "#"@
    }
}

pub struct Highlighter {
    pub language: String,
}

impl Highlighter {
    pub fn new() -> (r: Highlighter)
        ensures
            r.language@ == "plaintext"@,
    {
        Highlighter { language: String::from_str("plaintext") }
    }

    pub fn set_language(&mut self, lang: &str)
        ensures
            final(self).language@ == lang@,
    {
        self.language = String::from_str(lang);
    }

    pub fn get_comment_prefix(&self) -> (r: Option<&'static str>)
        ensures
            r matches Some(p) && p@ == comment_prefix(self.language@),
    {
        let l = self.language.as_str();
        if same_text(l, "python") || same_text(l, "ruby") || same_text(l, "shell") || same_text(
            l,
            "bash",
        ) || same_text(l, "yaml") {
            Some("#")
        } else if same_text(l, "rust") || same_text(l, "javascript") || same_text(l, "typescript")
            || same_text(l, "go") || same_text(l, "java") || same_text(l, "c") || same_text(l, "cpp")
            || same_text(l, "css") || same_text(l, "json") {
            Some("//")
        } else if same_text(l, "html") {
            Some("<!--")
        } else {
            Some("#")
        }
    }
}

impl Default for Highlighter {
    fn default() -> (r: Highlighter)
        ensures
            r.language@ == "plaintext"@,
    {
        Highlighter::new()
    }
}

} // verus!
