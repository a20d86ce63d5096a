//! Editing preferences.

use vstd::prelude::*;
use vstd::string::StringExecFns;

verus! {

/// The preferences that the editor reads.
pub struct Settings {
    pub tab_size: usize,
    pub use_spaces: bool,
    pub auto_indent: bool,
    pub show_line_numbers: bool,
    pub highlight_current_line: bool,
    pub word_wrap: bool,
    pub auto_save: bool,
    pub theme: String,
    pub show_tabs: bool,
    pub show_status_bar: bool,
    pub show_help: bool,
    pub mouse_support: bool,
}

impl Clone for Settings {
    fn clone(&self) -> (r: Settings)
        ensures
            r == *self,
    {
        Settings {
            tab_size: self.tab_size,
            use_spaces: self.use_spaces,
            auto_indent: self.auto_indent,
            show_line_numbers: self.show_line_numbers,
            highlight_current_line: self.highlight_current_line,
            word_wrap: self.word_wrap,
            auto_save: self.auto_save,
            theme: self.theme.clone(),
            show_tabs: self.show_tabs,
            show_status_bar: self.show_status_bar,
            show_help: self.show_help,
            mouse_support: self.mouse_support,
        }
    }
}

impl Default for Settings {
    /// Four-column soft tabs, auto-indent on, the monokai_pro theme.
    fn default() -> (r: Settings)
        ensures
            r.tab_size == 4,
            r.use_spaces,
            r.auto_indent,
            r.show_line_numbers,
            r.highlight_current_line,
            !r.word_wrap,
            !r.auto_save,
            r.theme@ == "monokai_pro"@,
            r.show_tabs,
            r.show_status_bar,
            r.show_help,
            r.mouse_support,
    {
        Settings {
            tab_size: 4,
            use_spaces: true,
            auto_indent: true,
            show_line_numbers: true,
            highlight_current_line: true,
            word_wrap: false,
            auto_save: false,
            theme: String::from_str("monokai_pro"),
            show_tabs: true,
            show_status_bar: true,
            show_help: true,
            mouse_support: true,
        }
    }
}

} // verus!
