//! Editing core of a terminal text editor: a gap buffer with a line index,
//! a text document, an undo log, and the modal key handling that drives them.

pub mod line_index;
pub mod text;
pub mod gap_buffer;
pub mod naming;
pub mod document;
pub mod history;
pub mod keys;
pub mod mode;
pub mod settings;
pub mod highlight;
pub mod editor;

pub use document::Buffer;
pub use editor::Editor;
pub use gap_buffer::GapBuffer;
pub use highlight::Highlighter;
pub use history::{EditOp, UndoHistory};
pub use keys::{KeyCode, KeyEvent, KeyKind, Modifiers};
pub use mode::{EditorMode, Effect, PendingAction, Step};
pub use naming::{choose_file, detect_language, is_openable};
pub use settings::Settings;
