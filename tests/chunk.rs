use license_core::chunk::{chunk_message, MAX_MESSAGE_LENGTH};

#[test]
fn short_text_is_one_piece() {
    assert_eq!(chunk_message("hello\nworld", 100), vec!["hello\nworld".to_string()]);
    assert_eq!(chunk_message("", 5), vec!["".to_string()]);
}

#[test]
fn pieces_break_at_line_ends() {
    assert_eq!(chunk_message("aaa\nbbb\nccc", 7), vec!["aaa\nbbb".to_string(), "ccc".to_string()]);
    assert_eq!(chunk_message("ab\r\ncd\r\nef\r\n", 5), vec!["ab\ncd".to_string(), "ef".to_string()]);
}

#[test]
fn long_lines_are_cut() {
    assert_eq!(
        chunk_message("abcdefghij", 4),
        vec!["abcd".to_string(), "efgh".to_string(), "ij".to_string()]
    );
    assert_eq!(
        chunk_message("xy\nabcdefghij\nz", 4),
        vec!["xy".to_string(), "abcd".to_string(), "efgh".to_string(), "ij\nz".to_string()]
    );
}

#[test]
fn zero_limit_means_default() {
    assert_eq!(MAX_MESSAGE_LENGTH, 4000);
    let text = "a".repeat(4001);
    let pieces = chunk_message(&text, 0);
    assert_eq!(pieces.len(), 2);
    assert_eq!(pieces[0].len(), 4000);
    assert_eq!(pieces[1], "a");
}

#[test]
fn limit_counts_characters() {
    assert_eq!(chunk_message("ééé\nüü", 3), vec!["ééé".to_string(), "üü".to_string()]);
}
