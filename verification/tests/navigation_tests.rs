use anode::document::{AnodeAspectI, CaretDirection, DocumentState};
use anode::position::{line_column_to_offset, offset_to_line_column};
use anode::text::TextBuffer;
use anode::words::{word_boundary_left, word_boundary_right};

fn chars_of(s: &str) -> Vec<char> {
    s.chars().collect()
}

fn plain_document(text: &str) -> DocumentState {
    let mut doc = DocumentState::new();
    let aspect = AnodeAspectI { property: 0, highlighting: None };
    let result = doc.load_from_asset(1, 1, Some(&aspect), &text.as_bytes().to_vec(), &Vec::new());
    assert!(result.is_ok());
    doc
}

#[test]
fn offset_line_column_round_trip_all_offsets() {
    let text = TextBuffer::from_chars(chars_of("first\nsecond line\n\nfourth"));
    for offset in 0..=text.len() {
        let (line, column) = offset_to_line_column(&text, offset);
        assert_eq!(line_column_to_offset(&text, line, column), offset);
    }
}

#[test]
fn offset_past_end_clamps_to_last_line_end() {
    let text = TextBuffer::from_chars(chars_of("ab\ncd"));
    let at_end = offset_to_line_column(&text, 5);
    assert_eq!(at_end, (1, 2));
    for k in 0..4 {
        assert_eq!(offset_to_line_column(&text, 5 + k), at_end);
    }
}

#[test]
fn column_past_line_end_clamps() {
    let text = TextBuffer::from_chars(chars_of("ab\ncd"));
    assert_eq!(line_column_to_offset(&text, 0, 99), 2);
    assert_eq!(line_column_to_offset(&text, 9, 0), 5);
}

#[test]
fn sticky_column_through_short_line() {
    let mut doc = plain_document("abcdef\nxy\n123456");
    doc.set_caret_line_column(0, 5);
    doc.set_caret_column_to_current();
    assert_eq!(doc.caret_line_column(), (0, 5));

    doc.move_caret(CaretDirection::Down, false);
    assert_eq!(doc.caret_line_column(), (1, 2));
    doc.move_caret(CaretDirection::Down, false);
    assert_eq!(doc.caret_line_column(), (2, 5));
    doc.move_caret(CaretDirection::Up, false);
    assert_eq!(doc.caret_line_column(), (1, 2));
    doc.move_caret(CaretDirection::Up, false);
    assert_eq!(doc.caret_line_column(), (0, 5));
}

#[test]
fn word_right_stops_at_word_ends() {
    let text = TextBuffer::from_chars(chars_of("foo  bar"));
    let first = word_boundary_right(&text, 0);
    assert_eq!(first, 3);
    let second = word_boundary_right(&text, first);
    assert_eq!(second, 8);
}

#[test]
fn word_left_stops_at_word_starts() {
    let text = TextBuffer::from_chars(chars_of("foo  bar"));
    let first = word_boundary_left(&text, 8);
    assert_eq!(first, 5);
    let second = word_boundary_left(&text, first);
    assert_eq!(second, 0);
}

#[test]
fn word_boundaries_clamp_at_edges() {
    let text = TextBuffer::from_chars(chars_of("  ..  "));
    assert_eq!(word_boundary_right(&text, 0), 6);
    assert_eq!(word_boundary_left(&text, 6), 0);
}

#[test]
fn word_moves_through_document() {
    let mut doc = plain_document("one two");
    doc.apply_input_right(true);
    assert_eq!(doc.caret(), 3);
    doc.apply_input_right(true);
    assert_eq!(doc.caret(), 7);
    doc.apply_input_left(true);
    assert_eq!(doc.caret(), 4);
    doc.apply_input_left(true);
    assert_eq!(doc.caret(), 0);
}

#[test]
fn caret_stays_in_bounds_under_any_sequence() {
    let mut doc = plain_document("ab\ncdef\ng");
    let moves = [
        CaretDirection::Up,
        CaretDirection::Left,
        CaretDirection::Down,
        CaretDirection::Down,
        CaretDirection::Right,
        CaretDirection::Down,
        CaretDirection::Right,
        CaretDirection::Up,
        CaretDirection::Left,
    ];
    for (step, direction) in moves.iter().enumerate() {
        doc.move_caret(*direction, step % 3 == 0);
        assert!(doc.caret() <= doc.text().len());
    }
    doc.apply_input_character('x');
    assert!(doc.caret() <= doc.text().len());
    doc.apply_input_backspace();
    assert!(doc.caret() <= doc.text().len());
}

#[test]
fn horizontal_moves_clamp_at_edges() {
    let mut doc = plain_document("hi");
    doc.move_caret(CaretDirection::Left, false);
    assert_eq!(doc.caret(), 0);
    doc.move_caret(CaretDirection::Right, false);
    doc.move_caret(CaretDirection::Right, false);
    doc.move_caret(CaretDirection::Right, false);
    assert_eq!(doc.caret(), 2);
}

#[test]
fn vertical_moves_clamp_to_text_edges() {
    let mut doc = plain_document("ab\ncd");
    doc.set_caret_line_column(0, 1);
    doc.set_caret_column_to_current();
    doc.move_caret(CaretDirection::Up, false);
    assert_eq!(doc.caret(), 0);
    doc.set_caret_line_column(1, 1);
    doc.set_caret_column_to_current();
    doc.move_caret(CaretDirection::Down, false);
    assert_eq!(doc.caret(), 5);
}

#[test]
fn word_boundaries_count_scalars_not_bytes() {
    let text = TextBuffer::from_chars(chars_of("héllo wörld"));
    assert_eq!(word_boundary_right(&text, 0), 5);
    assert_eq!(word_boundary_right(&text, 5), 11);
    assert_eq!(word_boundary_left(&text, 11), 6);
}

#[test]
fn round_trip_with_multibyte_scalars() {
    let text = TextBuffer::from_chars(chars_of("αβ\nγδε"));
    for offset in 0..=text.len() {
        let (line, column) = offset_to_line_column(&text, offset);
        assert_eq!(line_column_to_offset(&text, line, column), offset);
    }
    assert_eq!(offset_to_line_column(&text, 4), (1, 1));
}

#[test]
fn clamped_vertical_moves_keep_remembered_column() {
    let mut doc = plain_document("xy\nabcdef");
    doc.set_caret_line_column(1, 5);
    doc.set_caret_column_to_current();

    // Up clamps the caret onto the short first line...
    doc.move_caret(CaretDirection::Up, false);
    assert_eq!(doc.caret_line_column(), (0, 2));
    // ...and up from the first line clamps to the very start...
    doc.move_caret(CaretDirection::Up, false);
    assert_eq!(doc.caret(), 0);
    // ...but the remembered column survives both clamps: moving back down
    // steers to column 5 again.
    doc.move_caret(CaretDirection::Down, false);
    assert_eq!(doc.caret_line_column(), (1, 5));

    // Down from the last line clamps to the end of the text and also keeps
    // the remembered column.
    doc.move_caret(CaretDirection::Down, false);
    assert_eq!(doc.caret(), 9);
    doc.move_caret(CaretDirection::Up, false);
    assert_eq!(doc.caret_line_column(), (0, 2));
}
