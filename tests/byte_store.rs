use nova_core::GapBuffer;

fn text_of(b: &GapBuffer) -> Vec<u8> {
    b.range_bytes(0, b.len())
}

/// A small deterministic generator for edit positions and lengths.
struct Lcg(u64);

impl Lcg {
    fn next(&mut self, bound: usize) -> usize {
        self.0 = self.0.wrapping_mul(6364136223846793005).wrapping_add(1442695040888963407);
        ((self.0 >> 33) as usize) % bound.max(1)
    }
}

#[test]
fn replay_matches_plain_string() {
    let chunks = ["a", "é", "\n", "€uro", "日本", "x\ny", ""];
    let mut buf = GapBuffer::new();
    let mut reference: Vec<u8> = Vec::new();
    let mut rng = Lcg(7);
    for _ in 0..400 {
        let len = reference.len();
        if rng.next(3) < 2 {
            let pos = rng.next(len + 3);
            let chunk = chunks[rng.next(chunks.len())];
            buf.insert(pos, chunk);
            let at = pos.min(len);
            let tail = reference.split_off(at);
            reference.extend_from_slice(chunk.as_bytes());
            reference.extend_from_slice(&tail);
        } else {
            let pos = rng.next(len + 3);
            let n = rng.next(5);
            buf.delete(pos, n);
            let at = pos.min(len);
            let end = (at + n).min(len);
            reference.drain(at..end);
        }
        assert_eq!(text_of(&buf), reference);
        assert_eq!(buf.len(), reference.len());
    }
    assert_eq!(buf.to_string(), String::from_utf8_lossy(&reference).to_string());
}

#[test]
fn range_is_stitched_across_the_gap() {
    let mut buf = GapBuffer::from_string("héllo wörld");
    // put the gap inside the two bytes of 'é'
    buf.move_gap(2);
    assert_eq!(buf.get_range(0, 6), "héllo");
    assert_eq!(buf.get_range(1, 3), "é");
    assert_eq!(buf.to_string(), "héllo wörld");
    buf.move_gap(9);
    assert_eq!(buf.get_range(7, 100), "wörld");
    assert_eq!(buf.get_range(5, 3), "");
}

#[test]
fn split_character_decodes_with_replacement() {
    let buf = GapBuffer::from_string("é");
    assert_eq!(buf.get_range(0, 1), "\u{FFFD}");
    assert_eq!(buf.get_range(0, 2), "é");
}

#[test]
fn empty_buffer_has_one_line() {
    let buf = GapBuffer::new();
    assert!(buf.is_empty());
    assert_eq!(buf.num_lines(), 1);
    assert_eq!(buf.get_line_offsets(), vec![0, 0]);
    assert_eq!(buf.get_line(0), "");
    assert_eq!(buf.to_lines(), Vec::<String>::new());
}

#[test]
fn line_offsets_and_lines() {
    let buf = GapBuffer::from_string("a\nbc\n");
    assert_eq!(buf.get_line_offsets(), vec![0, 2, 5, 5]);
    assert_eq!(buf.num_lines(), 3);
    assert_eq!(buf.get_line(0), "a");
    assert_eq!(buf.get_line(1), "bc");
    assert_eq!(buf.get_line(2), "");
    assert_eq!(buf.get_line(9), "");
    assert_eq!(buf.line_len(1), 2);
    assert_eq!(buf.line_start_offset(1), 2);
    assert_eq!(buf.line_start_offset(7), 5);
    assert_eq!(buf.line_col(3), (1, 1));
    assert_eq!(buf.line_col(5), (2, 0));
    assert_eq!(buf.line_col(50), (2, 0));
}

#[test]
fn lines_follow_str_lines() {
    assert_eq!(GapBuffer::from_string("a\r\nb\n").to_lines(), vec!["a", "b"]);
    assert_eq!(GapBuffer::from_string("x").to_lines(), vec!["x"]);
    assert_eq!(GapBuffer::from_string("\n\n").to_lines(), vec!["", ""]);
}

#[test]
fn delete_past_end_is_clamped() {
    let mut buf = GapBuffer::from_string("abc");
    buf.delete(1, 100);
    assert_eq!(buf.to_string(), "a");
    buf.delete(10, 1);
    assert_eq!(buf.to_string(), "a");
    buf.insert(99, "z");
    assert_eq!(buf.to_string(), "az");
}

#[test]
fn line_index_tracks_every_edit() {
    let mut buf = GapBuffer::from_string("one\ntwo\n");
    let edits: [(usize, &str); 4] = [(3, "\n"), (0, "x\ny\n"), (5, "é"), (2, "")];
    for (pos, text) in edits {
        buf.insert(pos, text);
        let s = buf.to_string();
        assert_eq!(buf.num_lines(), s.matches('\n').count() + 1);
        for i in 0..buf.num_lines() {
            let off = buf.offset_at(i, 0);
            assert_eq!(buf.line_col(off), (i, 0));
        }
    }
    buf.delete(0, 4);
    assert_eq!(buf.num_lines(), buf.to_string().matches('\n').count() + 1);
}
