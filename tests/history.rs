use nova_core::{Buffer, EditOp, UndoHistory};

fn doc(content: &str) -> Buffer {
    Buffer::from_content("h.txt".to_string(), content)
}

#[test]
fn undo_redo_at_the_ends_fail() {
    let mut b = doc("abc");
    let mut h = UndoHistory::new();
    assert!(!h.undo(&mut b));
    assert!(!h.redo(&mut b));
    assert_eq!(b.text.to_string(), "abc\n");
    assert!(!b.is_modified);
}

#[test]
fn undo_all_then_redo_all() {
    let mut b = doc("héllo\nworld");
    let start = b.text.to_string();
    let mut h = UndoHistory::new();
    let edits: Vec<(bool, usize, &str, usize)> = vec![
        (true, 0, "X", 0),
        (false, 2, "", 2),
        (true, 5, "日本\n", 0),
        (false, 0, "", 4),
        (true, 3, "€", 0),
    ];
    for (is_insert, pos, text, len) in edits {
        if is_insert {
            b.insert(pos, text);
            h.push(EditOp::Insert { pos, text: text.as_bytes().to_vec() });
        } else {
            let removed = b.text.range_bytes(pos, pos + len);
            b.delete(pos, len);
            h.push(EditOp::Delete { pos, text: removed });
        }
    }
    let end = b.text.range_bytes(0, b.total_len());
    while h.undo(&mut b) {}
    assert_eq!(b.text.to_string(), start);
    while h.redo(&mut b) {}
    assert_eq!(b.text.range_bytes(0, b.total_len()), end);
}

#[test]
fn new_edit_drops_redo_tail() {
    let mut b = doc("ab");
    let mut h = UndoHistory::new();
    b.insert(0, "1");
    h.push(EditOp::Insert { pos: 0, text: b"1".to_vec() });
    b.insert(0, "2");
    h.push(EditOp::Insert { pos: 0, text: b"2".to_vec() });
    assert!(h.undo(&mut b));
    assert_eq!(h.position(), 1);
    b.insert(0, "3");
    h.push(EditOp::Insert { pos: 0, text: b"3".to_vec() });
    assert_eq!(h.len(), 2);
    assert!(!h.redo(&mut b));
    assert_eq!(b.text.to_string(), "31ab\n");
}

#[test]
fn log_keeps_the_newest_thousand() {
    let mut h = UndoHistory::new();
    for i in 0..1005 {
        h.push(EditOp::Insert { pos: i, text: b"x".to_vec() });
    }
    assert_eq!(h.len(), 1000);
    assert_eq!(h.position(), 1000);
    h.clear();
    assert_eq!(h.len(), 0);
    assert_eq!(h.position(), 0);
}
