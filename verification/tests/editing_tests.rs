use anode::document::{AnodeAspectI, DocumentState, TextChange};

fn plain_document(text: &str) -> DocumentState {
    let mut doc = DocumentState::new();
    let aspect = AnodeAspectI { property: 0, highlighting: None };
    let result = doc.load_from_asset(1, 1, Some(&aspect), &text.as_bytes().to_vec(), &Vec::new());
    assert!(result.is_ok());
    doc
}

fn text_of(doc: &DocumentState) -> String {
    doc.text().chars().iter().collect()
}

#[test]
fn insert_character_moves_caret_after_it() {
    let mut doc = plain_document("ac");
    doc.set_caret_line_column(0, 1);
    doc.set_caret_column_to_current();
    let changed = doc.apply_input_character('b');
    assert!(changed);
    assert_eq!(text_of(&doc), "abc");
    assert_eq!(doc.caret(), 2);
    assert_eq!(doc.caret_line_column(), (0, 2));
}

#[test]
fn insert_newline_resets_column() {
    let mut doc = plain_document("abcd");
    doc.set_caret_line_column(0, 2);
    doc.set_caret_column_to_current();
    doc.apply_input_character('\n');
    assert_eq!(text_of(&doc), "ab\ncd");
    assert_eq!(doc.caret_line_column(), (1, 0));
}

#[test]
fn backspace_at_start_is_a_no_op() {
    let mut doc = plain_document("abc");
    doc.set_caret_line_column(0, 0);
    let changed = doc.apply_input_backspace();
    assert!(!changed);
    assert_eq!(text_of(&doc), "abc");
    assert_eq!(doc.caret(), 0);
}

#[test]
fn delete_at_end_is_a_no_op() {
    let mut doc = plain_document("abc");
    doc.set_caret_line_column(0, 3);
    doc.set_caret_column_to_current();
    let changed = doc.apply_input_delete();
    assert!(!changed);
    assert_eq!(text_of(&doc), "abc");
    assert_eq!(doc.caret(), 3);
}

#[test]
fn backspace_removes_before_caret() {
    let mut doc = plain_document("abc");
    doc.set_caret_line_column(0, 2);
    doc.set_caret_column_to_current();
    let changed = doc.apply_input_backspace();
    assert!(changed);
    assert_eq!(text_of(&doc), "ac");
    assert_eq!(doc.caret(), 1);
}

#[test]
fn delete_removes_at_caret() {
    let mut doc = plain_document("abc");
    doc.set_caret_line_column(0, 1);
    doc.set_caret_column_to_current();
    let changed = doc.apply_input_delete();
    assert!(changed);
    assert_eq!(text_of(&doc), "ac");
    assert_eq!(doc.caret(), 1);
}

#[test]
fn tab_at_column_two_inserts_two_spaces() {
    let mut doc = plain_document("ab");
    doc.set_caret_line_column(0, 2);
    doc.set_caret_column_to_current();
    let changed = doc.apply_input_tab();
    assert!(changed);
    assert_eq!(text_of(&doc), "ab  ");
    assert_eq!(doc.caret_line_column(), (0, 4));
}

#[test]
fn tab_at_column_four_inserts_four_spaces() {
    let mut doc = plain_document("abcd");
    doc.set_caret_line_column(0, 4);
    doc.set_caret_column_to_current();
    doc.apply_input_tab();
    assert_eq!(text_of(&doc), "abcd    ");
    assert_eq!(doc.caret_line_column(), (0, 8));
}

#[test]
fn tab_never_inserts_zero_spaces() {
    for column in 0..6 {
        let mut doc = plain_document("abcdef");
        doc.set_caret_line_column(0, column);
        doc.set_caret_column_to_current();
        let before = doc.text().len();
        doc.apply_input_tab();
        let inserted = doc.text().len() - before;
        assert!(1 <= inserted && inserted <= 4);
        assert_eq!(doc.caret_line_column().1 % 4, 0);
    }
}

#[test]
fn text_change_dispatches_all_variants() {
    let mut doc = plain_document("xz");
    doc.set_caret_line_column(0, 1);
    doc.set_caret_column_to_current();
    assert!(doc.apply_text_change(TextChange::Character('y')));
    assert_eq!(text_of(&doc), "xyz");
    assert!(doc.apply_text_change(TextChange::Backspace));
    assert_eq!(text_of(&doc), "xz");
    assert!(doc.apply_text_change(TextChange::Delete));
    assert_eq!(text_of(&doc), "x");
    assert!(!doc.apply_text_change(TextChange::Delete));
    assert_eq!(text_of(&doc), "x");
}

#[test]
fn codepoints_route_to_the_right_edits() {
    let mut doc = plain_document("");
    assert!(doc.apply_codepoint(65));
    assert_eq!(text_of(&doc), "A");
    assert!(doc.apply_codepoint(13));
    assert_eq!(text_of(&doc), "A\n");
    assert!(doc.apply_codepoint(9));
    assert_eq!(text_of(&doc), "A\n    ");
    assert!(doc.apply_codepoint(8));
    assert_eq!(text_of(&doc), "A\n   ");
    assert!(!doc.apply_codepoint(1));
    assert_eq!(text_of(&doc), "A\n   ");
}

#[test]
fn backspace_at_start_via_codepoint() {
    let mut doc = plain_document("a");
    doc.set_caret_line_column(0, 0);
    assert!(!doc.apply_codepoint(8));
    assert_eq!(text_of(&doc), "a");
}
