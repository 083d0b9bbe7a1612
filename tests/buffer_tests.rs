use modal_editor::buffer::Buffer;

#[test]
fn test_viewport() {
    let buffer = Buffer::new(Some("sample.txt".to_string()), "a\nb".to_string());
    assert_eq!(buffer.viewport(0, 5), "a\nb".to_string());
}

#[test]
fn test_viewport_with_small_buffer() {
    let buffer = Buffer::new(
        Some("sample.txt".to_string()),
        "fn main() {\n    println!(\"Hello, world!\");\n    }".to_string(),
    );
    assert_eq!(
        buffer.viewport(0, 2),
        "fn main() {\n    println!(\"Hello, world!\");".to_string()
    );
}

#[test]
fn viewport_returns_only_requested_lines() {
    let buffer = Buffer::new(None, "one\ntwo\nthree\nfour".to_string());
    assert_eq!(buffer.viewport(1, 2), "two\nthree");
    assert_eq!(buffer.viewport(3, 10), "four");
    assert_eq!(buffer.viewport(4, 10), "");
    assert_eq!(buffer.viewport(0, 0), "");
}

#[test]
fn load_splits_lines() {
    assert_eq!(Buffer::new(None, String::new()).len(), 0);
    let b = Buffer::new(None, "x\r\ny\n\nz\n".to_string());
    assert_eq!(b.len(), 4);
    assert_eq!(b.get(0), Some("x".to_string()));
    assert_eq!(b.get(1), Some("y".to_string()));
    assert_eq!(b.get(2), Some(String::new()));
    assert_eq!(b.get(3), Some("z".to_string()));
    assert_eq!(b.get(4), None);
    assert_eq!(Buffer::new(None, "\n".to_string()).len(), 1);
}

#[test]
fn char_edits_and_out_of_range_no_ops() {
    let mut b = Buffer::new(None, "héllo".to_string());
    b.insert(0, 0, '>');
    assert_eq!(b.get(0), Some(">héllo".to_string()));
    b.insert(6, 0, '!');
    assert_eq!(b.get(0), Some(">héllo!".to_string()));
    b.insert(9, 0, '?');
    b.insert(0, 3, '?');
    assert_eq!(b.get(0), Some(">héllo!".to_string()));
    b.remove(2, 0);
    assert_eq!(b.get(0), Some(">hllo!".to_string()));
    b.remove(6, 0);
    b.remove(0, 1);
    assert_eq!(b.get(0), Some(">hllo!".to_string()));
    assert_eq!(b.len(), 1);
}

#[test]
fn line_edits_and_out_of_range_no_ops() {
    let mut b = Buffer::new(None, "a\nb".to_string());
    b.insert_line(2, "c".to_string());
    b.insert_line(0, "z".to_string());
    b.insert_line(9, "never".to_string());
    assert_eq!(b.lines, vec!["z", "a", "b", "c"]);
    b.remove_line(1);
    b.remove_line(7);
    assert_eq!(b.lines, vec!["z", "b", "c"]);
}
