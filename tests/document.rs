use nova_core::{detect_language, Buffer, Highlighter, Settings};

fn doc(content: &str) -> Buffer {
    Buffer::from_content("notes.txt".to_string(), content)
}

#[test]
fn new_buffer_holds_one_terminator() {
    let b = Buffer::new();
    assert_eq!(b.text.to_string(), "\n");
    assert_eq!(b.num_lines(), 2);
    assert!(!b.is_modified);
    assert_eq!(b.file_name(), "[No Name]");
    assert_eq!(b.language, "plaintext");
}

#[test]
fn loaded_content_gets_one_terminator() {
    assert_eq!(doc("abc").text.to_string(), "abc\n");
    assert_eq!(doc("abc\n").text.to_string(), "abc\n");
    assert_eq!(doc("").text.to_string(), "\n");
    assert_eq!(doc("abc\n").saved_bytes(), b"abc".to_vec());
    assert_eq!(doc("abc\n\n").saved_bytes(), b"abc\n".to_vec());
}

#[test]
fn split_line_at_column() {
    let mut b = doc("hello world\n");
    b.insert_newline(0, 5);
    assert_eq!(b.get_line(0), "hello");
    assert_eq!(b.get_line(1), " world");
    assert!(b.is_modified);
}

#[test]
fn search_wraps_past_end() {
    let b = doc("foo\nbar\nfoo\n");
    assert_eq!(b.find("foo", 2, 0), Some((0, 0)));
    assert_eq!(b.find("bar", 0, 0), Some((1, 0)));
    assert_eq!(b.find("foo", 0, 0), Some((2, 0)));
    assert_eq!(b.find("", 0, 0), None);
    assert_eq!(b.find("zzz", 1, 1), None);
}

#[test]
fn search_finds_only_match_at_cursor() {
    let b = doc("abc\n");
    assert_eq!(b.find("abc", 0, 0), Some((0, 0)));
}

#[test]
fn replace_all_counts() {
    let mut b = doc("cat cat cat\n");
    assert_eq!(b.replace("cat", "dog"), 3);
    assert_eq!(b.text.to_string(), "dog dog dog\n");
    assert_eq!(b.replace("aaa", "b"), 0);
    assert_eq!(b.text.to_string(), "dog dog dog\n");
}

#[test]
fn replace_does_not_overlap_and_keeps_terminator() {
    let mut b = doc("aaaa");
    assert_eq!(b.replace("aa", "b"), 2);
    assert_eq!(b.text.to_string(), "bb\n");
    let mut c = doc("x\n");
    assert_eq!(c.replace("\n", ""), 1);
    assert_eq!(c.text.to_string(), "x\n");
    assert_eq!(c.replace("", "y"), 0);
    assert_eq!(c.text.to_string(), "x\n");
}

#[test]
fn cursor_offsets_round_trip() {
    let b = doc("ab\n\ncde\n");
    for line in 0..b.num_lines() {
        for col in 0..=b.line_len(line) {
            let off = b.get_cursor_pos(line, col);
            assert_eq!(b.get_line_col(off), (line, col));
        }
    }
    assert_eq!(b.get_cursor_pos(0, 99), 2);
    assert_eq!(b.get_cursor_pos(99, 0), b.total_len());
    assert_eq!(b.line_len(0), 2);
    assert_eq!(b.line_len(99), 0);
}

#[test]
fn file_names() {
    let mut b = Buffer::for_new_file("/tmp/work/main.rs".to_string());
    assert_eq!(b.file_name(), "main.rs");
    assert_eq!(b.language, "rust");
    b.path = Some("dir/".to_string());
    assert_eq!(b.file_name(), "dir");
    b.path = Some("..".to_string());
    assert_eq!(b.file_name(), "[No Name]");
    b.mark_saved_as("out.py".to_string());
    assert_eq!(b.language, "python");
    assert_eq!(b.path.as_deref(), Some("out.py"));
    assert!(!b.is_modified);
}

#[test]
fn languages_from_extensions() {
    assert_eq!(detect_language("a/b/c.tsx"), "plaintext");
    assert_eq!(detect_language("x.ts"), "typescript");
    assert_eq!(detect_language("x.HH"), "plaintext");
    assert_eq!(detect_language("x.hh"), "cpp");
    assert_eq!(detect_language(".bashrc"), "plaintext");
    assert_eq!(detect_language("run.sh"), "bash");
    assert_eq!(detect_language("README.md"), "markdown");
    assert_eq!(detect_language("archive.tar.toml"), "toml");
    assert_eq!(detect_language("noext"), "plaintext");
    assert_eq!(detect_language("build.kts"), "kotlin");
}

#[test]
fn comment_prefixes() {
    let mut h = Highlighter::new();
    assert_eq!(h.get_comment_prefix(), Some("#"));
    h.set_language("rust");
    assert_eq!(h.get_comment_prefix(), Some("//"));
    h.set_language("html");
    assert_eq!(h.get_comment_prefix(), Some("<!--"));
    h.set_language("yaml");
    assert_eq!(h.get_comment_prefix(), Some("#"));
}

#[test]
fn default_settings() {
    let s = Settings::default();
    assert_eq!(s.tab_size, 4);
    assert!(s.use_spaces);
    assert!(s.auto_indent);
    assert_eq!(s.theme, "monokai_pro");
}

#[test]
fn openable_extensions() {
    assert!(nova_core::is_openable("src/lib.rs"));
    assert!(nova_core::is_openable("NOTES.TXT"));
    assert!(nova_core::is_openable("./page.Html"));
    assert!(!nova_core::is_openable("image.png"));
    assert!(!nova_core::is_openable("Makefile"));
    assert!(!nova_core::is_openable(".txt"));
}

#[test]
fn open_choice_takes_first_accepted_that_loaded() {
    let paths: Vec<String> = ["a.png", "b.rs", "c.txt", "d.md"].iter().map(|s| s.to_string()).collect();
    assert_eq!(nova_core::choose_file(&paths, &vec![true, false, true, true]), Some(2));
    assert_eq!(nova_core::choose_file(&paths, &vec![true, true, true, true]), Some(1));
    assert_eq!(nova_core::choose_file(&paths, &vec![true, false, false, false]), None);
    assert_eq!(nova_core::choose_file(&Vec::new(), &Vec::new()), None);
}

#[test]
fn line_past_the_end_clamps_to_last_line() {
    let g = nova_core::GapBuffer::from_string("ab");
    assert_eq!(g.offset_at(5, 0), 0);
    assert_eq!(g.offset_at(5, 1), 1);
    assert_eq!(g.line_start_offset(5), 0);
    let mut b = doc("x\nyz\n");
    b.delete(4, 1);
    assert_eq!(b.text.to_string(), "x\nyz");
    assert_eq!(b.get_cursor_pos(9, 0), 2);
    assert_eq!(b.get_cursor_pos(9, 99), 4);
}

#[test]
fn dot_components_at_the_end_are_not_names() {
    let mut b = Buffer::new();
    b.path = Some("src/lib.rs/.".to_string());
    assert_eq!(b.file_name(), "lib.rs");
    b.path = Some("work/./".to_string());
    assert_eq!(b.file_name(), "work");
    b.path = Some("/.".to_string());
    assert_eq!(b.file_name(), "[No Name]");
    assert_eq!(detect_language("src/main.rs/."), "rust");
}
