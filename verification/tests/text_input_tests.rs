use logo_designer::text_input::{Highlight, MouseHit, TextInput};

fn input_with(text: &str) -> TextInput {
    let mut input = TextInput::new();
    input.set_content(text.to_string());
    input
}

#[test]
fn new_input_is_empty() {
    let input = TextInput::new();
    assert_eq!(input.content(), "");
    assert_eq!(input.placeholder(), "Type here...");
    assert_eq!(input.cursor_offset(), 0);
    assert_eq!(input.selected_range(), 0..0);
    assert_eq!(input.marked_text_range(), None);
    assert!(!input.is_selecting());
}

#[test]
fn set_content_resets_selection() {
    let mut input = input_with("hello");
    input.select_all();
    assert_eq!(input.selected_range(), 0..5);
    input.set_content("bye".to_string());
    assert_eq!(input.content(), "bye");
    assert_eq!(input.selected_range(), 0..0);
    input.set_placeholder("Describe changes".to_string());
    assert_eq!(input.placeholder(), "Describe changes");
}

#[test]
fn lines_and_line_count() {
    assert_eq!(input_with("").lines(), vec![String::new()]);
    assert_eq!(input_with("a\nb\n").lines(), vec!["a".to_string(), "b".to_string(), String::new()]);
    assert_eq!(input_with("one").line_count(), 1);
    assert_eq!(input_with("a\nb\n").line_count(), 3);
    assert_eq!(input_with("").line_count(), 1);
}

#[test]
fn line_and_column_of_offsets() {
    let input = input_with("ab\ncd");
    assert_eq!(input.line_and_col_for_offset(0), (0, 0));
    assert_eq!(input.line_and_col_for_offset(2), (0, 2));
    assert_eq!(input.line_and_col_for_offset(3), (1, 0));
    assert_eq!(input.line_and_col_for_offset(4), (1, 1));
    assert_eq!(input.line_and_col_for_offset(100), (1, 2));
}

#[test]
fn offsets_of_line_and_column() {
    let input = input_with("ab\ncd");
    assert_eq!(input.offset_for_line_col(1, 1), 4);
    assert_eq!(input.offset_for_line_col(0, 10), 2);
    assert_eq!(input.offset_for_line_col(5, 0), 3);
    assert_eq!(input.offset_for_line_col(5, 9), 5);
    assert_eq!(input.line_start_offset(4), 3);
    assert_eq!(input.line_end_offset(0), 2);
    assert_eq!(input.line_end_offset(3), 5);
}

#[test]
fn line_and_column_round_trip() {
    let input = input_with("first\n\nthird line\nx");
    let len = input.content().len();
    for offset in 0..len + 3 {
        let (line, col) = input.line_and_col_for_offset(offset);
        assert_eq!(input.offset_for_line_col(line, col), offset.min(len));
    }
}

#[test]
fn vertical_moves_keep_the_column() {
    let mut input = input_with("abc\nde\nfghij");
    input.move_to(2);
    input.down();
    assert_eq!(input.cursor_offset(), 6);
    input.down();
    assert_eq!(input.cursor_offset(), 9);
    input.down();
    assert_eq!(input.cursor_offset(), 12);
    input.up();
    assert_eq!(input.cursor_offset(), 6);
    input.up();
    assert_eq!(input.cursor_offset(), 2);
    input.up();
    assert_eq!(input.cursor_offset(), 0);
}

#[test]
fn up_keeps_the_byte_column_even_inside_a_character() {
    let mut input = input_with("é\nab");
    input.move_to(4);
    input.up();
    assert_eq!(input.cursor_offset(), 1);
}

#[test]
fn horizontal_moves_step_over_grapheme_clusters() {
    let mut input = input_with("a\u{310}éö\u{332}\r\n");
    input.move_to(0);
    input.right();
    assert_eq!(input.cursor_offset(), 3);
    input.right();
    assert_eq!(input.cursor_offset(), 5);
    input.right();
    assert_eq!(input.cursor_offset(), 9);
    input.right();
    assert_eq!(input.cursor_offset(), 11);
    input.right();
    assert_eq!(input.cursor_offset(), 11);
    input.left();
    assert_eq!(input.cursor_offset(), 9);
    assert_eq!(input.previous_boundary(0), 0);
    assert_eq!(input.previous_boundary(4), 3);
    assert_eq!(input.next_boundary(11), 11);
}

#[test]
fn arrows_collapse_a_selection() {
    let mut input = input_with("hello");
    input.move_to(1);
    input.select_to(4);
    input.left();
    assert_eq!(input.selected_range(), 1..1);
    input.select_to(4);
    input.right();
    assert_eq!(input.selected_range(), 4..4);
}

#[test]
fn shift_selection_flips_direction() {
    let mut input = input_with("hello");
    input.move_to(2);
    input.select_left();
    assert_eq!(input.selected_range(), 1..2);
    assert_eq!(input.cursor_offset(), 1);
    input.select_right();
    input.select_right();
    assert_eq!(input.selected_range(), 2..3);
    assert_eq!(input.cursor_offset(), 3);
}

#[test]
fn select_to_law_on_values() {
    let mut input = input_with("0123456789");
    input.move_to(5);
    input.select_to(2);
    assert_eq!(input.selected_range(), 2..5);
    assert_eq!(input.cursor_offset(), 2);
    input.select_to(8);
    assert_eq!(input.selected_range(), 5..8);
    assert_eq!(input.cursor_offset(), 8);
}

#[test]
fn home_and_end() {
    let mut input = input_with("ab\ncdef");
    input.move_to(5);
    input.home();
    assert_eq!(input.cursor_offset(), 3);
    input.end();
    assert_eq!(input.cursor_offset(), 7);
    input.move_to(1);
    input.end();
    assert_eq!(input.cursor_offset(), 2);
}

#[test]
fn backspace_removes_the_previous_cluster() {
    let mut input = input_with("héllo");
    input.move_to(3);
    input.backspace();
    assert_eq!(input.content(), "hllo");
    assert_eq!(input.selected_range(), 1..1);
}

#[test]
fn backspace_at_start_changes_nothing() {
    let mut input = input_with("abc");
    input.move_to(0);
    input.backspace();
    assert_eq!(input.content(), "abc");
    assert_eq!(input.selected_range(), 0..0);
}

#[test]
fn backspace_and_delete_remove_a_selection() {
    let mut input = input_with("abcdef");
    input.move_to(1);
    input.select_to(4);
    input.backspace();
    assert_eq!(input.content(), "aef");
    input.select_all();
    input.delete();
    assert_eq!(input.content(), "");
}

#[test]
fn delete_removes_the_next_cluster() {
    let mut input = input_with("e\u{301}x");
    input.move_to(0);
    input.delete();
    assert_eq!(input.content(), "x");
    assert_eq!(input.cursor_offset(), 0);
}

#[test]
fn enter_submits_or_inserts_a_newline() {
    let mut input = input_with("logo prompt");
    input.move_to(4);
    assert_eq!(input.enter(true), Some("logo prompt".to_string()));
    assert_eq!(input.content(), "");
    assert_eq!(input.selected_range(), 0..0);

    let mut input = input_with("ab");
    input.move_to(1);
    assert_eq!(input.enter(false), None);
    assert_eq!(input.content(), "a\nb");
    assert_eq!(input.selected_range(), 2..2);
}

#[test]
fn copy_cut_and_paste() {
    let mut input = input_with("hello world");
    assert_eq!(input.copy(), None);
    input.move_to(6);
    input.select_to(11);
    assert_eq!(input.copy(), Some("world".to_string()));
    assert_eq!(input.cut(), Some("world".to_string()));
    assert_eq!(input.content(), "hello ");
    input.paste(Some("there"));
    assert_eq!(input.content(), "hello there");
    assert_eq!(input.selected_range(), 11..11);
    input.paste(None);
    assert_eq!(input.content(), "hello there");
    assert_eq!(input.cut(), None);
}

#[test]
fn replacement_reads_back() {
    let mut input = input_with("abcdef");
    input.move_to(2);
    input.select_to(4);
    input.replace_text_in_range(None, "XYZ");
    assert_eq!(input.content(), "abXYZef");
    assert_eq!(input.selected_range(), 5..5);
    assert_eq!(&input.content()[2..5], "XYZ");
}

#[test]
fn empty_insertion_changes_nothing() {
    let mut input = input_with("abc");
    input.move_to(1);
    input.replace_text_in_range(None, "");
    assert_eq!(input.content(), "abc");
    assert_eq!(input.selected_range(), 1..1);
}

#[test]
fn utf16_offsets() {
    let input = input_with("a\u{1F600}b");
    assert_eq!(input.offset_to_utf16(0), 0);
    assert_eq!(input.offset_to_utf16(1), 1);
    assert_eq!(input.offset_to_utf16(5), 3);
    assert_eq!(input.offset_to_utf16(6), 4);
    assert_eq!(input.offset_to_utf16(3), 3);
    assert_eq!(input.offset_from_utf16(3), 5);
    assert_eq!(input.offset_from_utf16(2), 5);
    assert_eq!(input.offset_from_utf16(4), 6);
    assert_eq!(input.offset_from_utf16(99), 6);
    assert_eq!(input.range_to_utf16(&(1..5)), 1..3);
    assert_eq!(input.range_from_utf16(&(1..3)), 1..5);
}

#[test]
fn utf16_round_trip() {
    let input = input_with("aé\u{1F600}漢z");
    for boundary in [0usize, 1, 3, 7, 10, 11] {
        assert_eq!(input.offset_from_utf16(input.offset_to_utf16(boundary)), boundary);
    }
    for units in [0usize, 1, 2, 4, 5, 6] {
        assert_eq!(input.offset_to_utf16(input.offset_from_utf16(units)), units);
    }
}

#[test]
fn input_method_queries() {
    let mut input = input_with("a\u{1F600}b");
    let mut actual = None;
    assert_eq!(input.text_for_range(1..3, &mut actual), Some("\u{1F600}".to_string()));
    assert_eq!(actual, Some(1..3));
    input.move_to(5);
    input.select_to(1);
    let sel = input.selected_text_range().unwrap();
    assert_eq!(sel.range, 1..3);
    assert!(sel.reversed);
}

#[test]
fn marked_text_composition() {
    let mut input = input_with("ab");
    input.move_to(1);
    input.replace_and_mark_text_in_range(None, "にほ", None);
    assert_eq!(input.content(), "aにほb");
    assert_eq!(input.marked_text_range(), Some(1..3));
    assert_eq!(input.selected_range(), 7..7);
    input.replace_and_mark_text_in_range(None, "日本", Some(2..2));
    assert_eq!(input.content(), "a日本b");
    assert_eq!(input.marked_text_range(), Some(1..3));
    assert_eq!(input.selected_range(), 5..11);
    input.unmark_text();
    assert_eq!(input.marked_text_range(), None);
    input.replace_and_mark_text_in_range(Some(0..1), "", None);
    assert_eq!(input.content(), "日本b");
    assert_eq!(input.marked_text_range(), None);
    assert_eq!(input.selected_range(), 0..0);
}

#[test]
fn replace_uses_the_marked_range_first() {
    let mut input = input_with("xy");
    input.move_to(1);
    input.replace_and_mark_text_in_range(None, "k", None);
    input.move_to(0);
    input.replace_text_in_range(None, "か");
    assert_eq!(input.content(), "xかy");
    assert_eq!(input.marked_text_range(), None);
    assert_eq!(input.selected_range(), 4..4);
}

#[test]
fn mouse_positions() {
    let input = input_with("ab\ncd");
    assert_eq!(input.index_for_mouse_position(&MouseHit::NoLayout), 0);
    assert_eq!(input.index_for_mouse_position(&MouseHit::AboveText), 0);
    assert_eq!(input.index_for_mouse_position(&MouseHit::BelowText), 5);
    assert_eq!(input.index_for_mouse_position(&MouseHit::OnLine { line: 1, index_in_line: Some(1) }), 4);
    assert_eq!(input.index_for_mouse_position(&MouseHit::OnLine { line: 7, index_in_line: None }), 5);
    assert_eq!(input.index_for_mouse_position(&MouseHit::OnLine { line: 0, index_in_line: None }), 2);
    let empty = TextInput::new();
    assert_eq!(empty.index_for_mouse_position(&MouseHit::BelowText), 0);
}

#[test]
fn mouse_drag_selects() {
    let mut input = input_with("ab\ncd");
    input.on_mouse_down(false, MouseHit::OnLine { line: 0, index_in_line: Some(1) });
    assert!(input.is_selecting());
    assert_eq!(input.selected_range(), 1..1);
    input.on_mouse_move(MouseHit::OnLine { line: 1, index_in_line: Some(2) });
    assert_eq!(input.selected_range(), 1..5);
    input.on_mouse_up();
    assert!(!input.is_selecting());
    input.on_mouse_move(MouseHit::AboveText);
    assert_eq!(input.selected_range(), 1..5);
    input.on_mouse_down(true, MouseHit::AboveText);
    assert_eq!(input.selected_range(), 0..1);
}

#[test]
fn edits_inside_a_character_are_refused() {
    // "é" takes two bytes; offset 1 falls inside it.
    let mut input = input_with("é");
    assert!(input.can_backspace());
    assert!(input.can_delete());
    assert!(input.can_replace_text(&None, "x"));
    input.move_to(1);
    assert!(!input.can_backspace());
    assert!(!input.can_delete());
    assert!(!input.can_replace_text(&None, "x"));
    assert!(input.can_copy());
    input.select_to(2);
    assert_eq!(input.selected_range(), 1..2);
    assert!(!input.can_copy());
}

#[test]
fn copy_is_allowed_on_whole_characters() {
    let mut input = input_with("aé");
    input.select_all();
    assert!(input.can_copy());
    assert_eq!(input.copy(), Some("aé".to_string()));
    input.move_to(3);
    assert!(input.can_backspace());
    input.backspace();
    assert_eq!(input.content(), "a");
}

#[test]
fn highlight_follows_selection() {
    assert_eq!(TextInput::new().highlight(), Highlight::Nothing);
    let mut input = input_with("ab\ncd");
    input.move_to(4);
    assert_eq!(input.highlight(), Highlight::Caret { line: 1, column: 1 });
    input.move_to(0);
    input.select_to(2);
    assert_eq!(
        input.highlight(),
        Highlight::Band { line: 0, start_column: 0, end_column: 2, last_line: 0 }
    );
    input.move_to(1);
    input.select_to(4);
    assert_eq!(
        input.highlight(),
        Highlight::Band { line: 0, start_column: 1, end_column: 2, last_line: 1 }
    );
}

#[test]
fn lines_rejoin_to_the_content() {
    for text in ["", "one", "a\nb", "a\n\nb\n", "\n", "é\nü"] {
        let input = input_with(text);
        assert_eq!(input.lines().join("\n"), text);
    }
}
