use chat_console::edit::{edit_at, move_content, split_lines};

fn lines_of(text: &str) -> Vec<String> {
    let chars: Vec<char> = text.chars().collect();
    split_lines(&chars).iter().map(|l| l.iter().collect()).collect()
}

#[test]
fn edit_at_start_of_first_line() {
    assert_eq!(edit_at("ab\ncd\n", 1, 0, "Z"), "Zab\ncd\n");
}

#[test]
fn edit_at_inside_a_later_line() {
    assert_eq!(edit_at("ab\ncd\n", 2, 1, "X"), "ab\ncXd\n");
    assert_eq!(edit_at("ab\ncd\nef\n", 3, 2, "XY"), "ab\ncd\nefXY\n");
}

#[test]
fn edit_at_column_past_the_line_is_the_line_end() {
    assert_eq!(edit_at("ab\ncd\n", 1, 99, "X"), "abX\ncd\n");
    assert_eq!(edit_at("ab\ncd\n", 2, usize::MAX, "X"), "ab\ncdX\n");
}

#[test]
fn edit_at_line_out_of_range_is_the_end() {
    assert_eq!(edit_at("ab\ncd\n", 0, 0, "X"), "ab\ncd\nX");
    assert_eq!(edit_at("ab\ncd\n", 3, 0, "X"), "ab\ncd\nX");
    assert_eq!(edit_at("ab\ncd\n", usize::MAX, 7, "X"), "ab\ncd\nX");
}

#[test]
fn edit_at_never_leaves_the_text() {
    // Without a line feed at the end the lines' room is one more than the
    // text is long.
    assert_eq!(edit_at("ab\ncd", 9, 0, "X"), "ab\ncdX");
    assert_eq!(edit_at("ab", 0, 0, "X"), "abX");
    assert_eq!(edit_at("", 1, 0, "X"), "X");
    assert_eq!(edit_at("", 0, 5, ""), "");
}

#[test]
fn edit_at_counts_characters() {
    assert_eq!(edit_at("日本\n語\n", 2, 1, "X"), "日本\n語X\n");
    assert_eq!(edit_at("日本\n語\n", 1, 1, "é"), "日é本\n語\n");
}

#[test]
fn edit_at_counts_one_for_each_line_ending() {
    // A carriage return belongs to the line ending, which still counts as
    // one character.
    assert_eq!(edit_at("ab\r\ncd\r\n", 2, 0, "X"), "ab\rX\ncd\r\n");
    assert_eq!(edit_at("ab\r\ncd\r\n", 1, 9, "X"), "abX\r\ncd\r\n");
}

#[test]
fn lines_end_at_line_feeds() {
    assert_eq!(lines_of("a\nb\n"), vec!["a", "b"]);
    assert_eq!(lines_of("a\nb"), vec!["a", "b"]);
    assert_eq!(lines_of(""), Vec::<String>::new());
    assert_eq!(lines_of("\n"), vec![""]);
    assert_eq!(lines_of("\n\n"), vec!["", ""]);
    assert_eq!(lines_of("a\r\nb\r\n"), vec!["a", "b"]);
    assert_eq!(lines_of("a\rb\r"), vec!["a\rb\r"]);
    assert_eq!(lines_of("a\r\n\r\n"), vec!["a", ""]);
    assert_eq!(lines_of("\r\n"), vec![""]);
    assert_eq!(lines_of("a\n\rb"), vec!["a", "\rb"]);
}

#[test]
fn lines_agree_with_the_standard_library() {
    for text in ["", "a", "a\n", "a\nb", "\n\na\n", "x\r\ny\r", "\r\r\n\n", "é\n日本\r\n"] {
        let expected: Vec<String> = text.lines().map(|l| l.to_string()).collect();
        assert_eq!(lines_of(text), expected);
    }
}

#[test]
fn move_content_moves_a_block_before_a_line() {
    assert_eq!(
        move_content("a\nb\nc\nd\n", "x\n", 2, 3, 1),
        ("a\nd\n".to_string(), "b\nc\nx\n".to_string())
    );
}

#[test]
fn move_content_into_the_middle_and_to_the_end() {
    assert_eq!(
        move_content("a\nb\nc\nd\n", "x\ny\n", 2, 3, 2),
        ("a\nd\n".to_string(), "x\nb\nc\ny\n".to_string())
    );
    assert_eq!(
        move_content("a\nb\nc\nd\n", "x\n", 2, 3, 5),
        ("a\nd\n".to_string(), "x\nb\nc\n".to_string())
    );
    assert_eq!(
        move_content("a\nb\nc\nd\n", "x\n", 1, 1, 0),
        ("b\nc\nd\n".to_string(), "x\na\n".to_string())
    );
}

#[test]
fn move_content_range_is_held_to_the_file() {
    assert_eq!(move_content("a\nb\n", "", 2, 99, 1), ("a\n".to_string(), "b\n".to_string()));
    assert_eq!(move_content("a\nb\n", "", 0, 1, 1), ("b\n".to_string(), "a\n".to_string()));
    assert_eq!(
        move_content("a\nb\n", "", 1, usize::MAX, 1),
        ("".to_string(), "a\nb\n".to_string())
    );
}

#[test]
fn move_content_of_an_empty_range_moves_an_empty_line() {
    assert_eq!(
        move_content("a\nb\n", "x\n", 3, 1, 1),
        ("a\nb\n".to_string(), "\nx\n".to_string())
    );
    assert_eq!(
        move_content("a\nb\n", "x\n", 5, 9, 1),
        ("a\nb\n".to_string(), "\nx\n".to_string())
    );
    assert_eq!(move_content("a\nb\n", "x\n", 1, 0, 2), ("a\nb\n".to_string(), "x\n\n".to_string()));
}

#[test]
fn move_content_gives_every_kept_line_a_line_feed() {
    assert_eq!(move_content("a\nb", "", 1, 1, 1), ("b\n".to_string(), "a\n".to_string()));
    assert_eq!(move_content("a\r\nb\r\nc", "", 2, 2, 1), ("a\nc\n".to_string(), "b\n".to_string()));
}

#[test]
fn move_content_into_a_text_without_final_line_feed() {
    assert_eq!(move_content("a\n", "x", 1, 1, 2), ("".to_string(), "xa\n".to_string()));
    assert_eq!(move_content("a\n", "x", 1, 1, 1), ("".to_string(), "a\nx".to_string()));
}
