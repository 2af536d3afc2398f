use anode::document::{AnodeAspectI, DocumentState};
use anode::errors::EditorError;
use anode::highlight::{HighlightEvent, Highlighting};

fn token_kinds() -> Vec<String> {
    vec![
        "string".to_string(),
        "number".to_string(),
        "constant".to_string(),
        "escape".to_string(),
        "comment".to_string(),
    ]
}

fn json_highlighting() -> Highlighting {
    Highlighting {
        language: tree_sitter_json::LANGUAGE.into(),
        highlight_query: tree_sitter_json::HIGHLIGHTS_QUERY.to_string(),
        injection_query: String::new(),
        locals_query: String::new(),
    }
}

fn json_document(text: &str) -> DocumentState {
    let mut doc = DocumentState::new();
    let aspect = AnodeAspectI { property: 0, highlighting: Some(json_highlighting()) };
    let result =
        doc.load_from_asset(1, 1, Some(&aspect), &text.as_bytes().to_vec(), &token_kinds());
    assert!(result.is_ok());
    doc
}

fn text_of(doc: &DocumentState) -> String {
    doc.text().chars().iter().collect()
}

/// Checks the highlight partition invariant at run time: source ranges cover
/// exactly `[0, len)` in order, markers balance, kinds stay in range.
fn check_partition(doc: &DocumentState, kinds: usize) {
    let mut pos = 0usize;
    let mut depth = 0usize;
    let mut covered = 0usize;
    for event in doc.highlights().iter() {
        match event {
            HighlightEvent::Source { start, end } => {
                assert_eq!(*start, pos);
                assert!(start <= end);
                covered += end - start;
                pos = *end;
            }
            HighlightEvent::HighlightStart { kind } => {
                assert!(*kind < kinds);
                depth += 1;
            }
            HighlightEvent::HighlightEnd => {
                assert!(depth > 0);
                depth -= 1;
            }
        }
    }
    assert_eq!(depth, 0);
    assert_eq!(pos, doc.text().len());
    assert_eq!(covered, doc.text().len());
}

fn start_kinds(doc: &DocumentState) -> Vec<usize> {
    doc.highlights()
        .iter()
        .filter_map(|event| match event {
            HighlightEvent::HighlightStart { kind } => Some(*kind),
            _ => None,
        })
        .collect()
}

#[test]
fn unconfigured_document_has_single_source_event() {
    let mut doc = DocumentState::new();
    let aspect = AnodeAspectI { property: 0, highlighting: None };
    doc.load_from_asset(1, 1, Some(&aspect), &b"hello".to_vec(), &Vec::new()).unwrap();
    assert_eq!(doc.highlights().len(), 1);
    assert_eq!(doc.highlights()[0], HighlightEvent::Source { start: 0, end: 5 });
}

#[test]
fn grammar_produces_real_highlights() {
    let doc = json_document("{\"a\": 12}");
    check_partition(&doc, token_kinds().len());
    let kinds = start_kinds(&doc);
    assert!(kinds.contains(&0), "expected a string highlight: {kinds:?}");
    assert!(kinds.contains(&1), "expected a number highlight: {kinds:?}");
}

#[test]
fn partition_holds_for_any_text_and_grammar() {
    let samples =
        ["", "12", "[1, true, \"x\"]", "{\"k\": [null, 2.5e3]}", "not json at all }{", "\"open"];
    for sample in samples {
        let doc = json_document(sample);
        check_partition(&doc, token_kinds().len());
    }
}

#[test]
fn partition_holds_after_edits() {
    let mut doc = json_document("[1, 2]");
    doc.set_caret_line_column(0, 1);
    doc.set_caret_column_to_current();
    doc.apply_input_character('"');
    check_partition(&doc, token_kinds().len());
    doc.apply_input_delete();
    check_partition(&doc, token_kinds().len());
    doc.apply_input_backspace();
    check_partition(&doc, token_kinds().len());
}

#[test]
fn edit_changes_classification_with_no_stale_cache() {
    let mut doc = json_document("123");
    let before = doc.highlights().clone();
    assert!(start_kinds(&doc).contains(&1), "a bare number should highlight as number");

    doc.set_caret_line_column(0, 0);
    doc.apply_input_character('"');
    let after = doc.highlights().clone();
    assert_ne!(before, after, "highlights must be recomputed on the very next read");
    check_partition(&doc, token_kinds().len());
}

#[test]
fn multibyte_text_highlights_with_scalar_ranges() {
    let doc = json_document("\"héllo wörld\"");
    check_partition(&doc, token_kinds().len());
    assert!(start_kinds(&doc).contains(&0));
}

#[test]
fn load_without_capability_is_refused() {
    let mut doc = DocumentState::new();
    let result = doc.load_from_asset(3, 4, None, &b"data".to_vec(), &Vec::new());
    assert_eq!(result, Err(EditorError::MissingCapability));
    assert_eq!(text_of(&doc), "");
    assert!(doc.asset().is_none());
}

#[test]
fn broken_query_reports_invalid_query() {
    let binding = Highlighting {
        language: tree_sitter_json::LANGUAGE.into(),
        highlight_query: "(((".to_string(),
        injection_query: String::new(),
        locals_query: String::new(),
    };
    let result = binding.configure(&token_kinds());
    assert!(matches!(result, Err(EditorError::InvalidQuery)));
}

#[test]
fn broken_query_falls_back_to_plain_text() {
    let mut doc = DocumentState::new();
    let aspect = AnodeAspectI {
        property: 0,
        highlighting: Some(Highlighting {
            language: tree_sitter_json::LANGUAGE.into(),
            highlight_query: "(unknown_node) @string".to_string(),
            injection_query: String::new(),
            locals_query: String::new(),
        }),
    };
    let result = doc.load_from_asset(1, 1, Some(&aspect), &b"[1]".to_vec(), &token_kinds());
    assert!(result.is_ok(), "the document must stay editable without highlighting");
    assert_eq!(doc.highlights()[0], HighlightEvent::Source { start: 0, end: 3 });
}

#[test]
fn load_decodes_lossily_and_strips_carriage_returns() {
    let mut doc = DocumentState::new();
    let aspect = AnodeAspectI { property: 0, highlighting: None };
    doc.load_from_asset(1, 1, Some(&aspect), &vec![0x66, 0xFF, 0x6F], &Vec::new()).unwrap();
    assert_eq!(text_of(&doc), "f\u{FFFD}o");

    let mut doc2 = DocumentState::new();
    doc2.load_from_asset(1, 1, Some(&aspect), &b"a\r\nb\r".to_vec(), &Vec::new()).unwrap();
    assert_eq!(text_of(&doc2), "a\nb");
}

#[test]
fn reloading_the_same_object_is_a_no_op() {
    let mut doc = DocumentState::new();
    let aspect = AnodeAspectI { property: 0, highlighting: None };
    doc.load_from_asset(7, 9, Some(&aspect), &b"first".to_vec(), &Vec::new()).unwrap();
    doc.load_from_asset(7, 9, Some(&aspect), &b"second".to_vec(), &Vec::new()).unwrap();
    assert_eq!(text_of(&doc), "first");
    let binding = doc.asset().unwrap();
    assert_eq!((binding.store, binding.object, binding.slot), (7, 9, 0));
}

#[test]
fn titles_follow_asset_metadata() {
    let mut doc = DocumentState::new();
    assert_eq!(doc.title().as_str(), "untitled");
    assert_eq!(doc.refresh_title("ignored", Some("txt"), true).as_str(), "untitled");

    let aspect = AnodeAspectI { property: 0, highlighting: None };
    doc.load_from_asset(1, 1, Some(&aspect), &b"x".to_vec(), &Vec::new()).unwrap();
    assert_eq!(doc.refresh_title("notes", Some("txt"), true).as_str(), "notes.txt");
    assert_eq!(doc.refresh_title("notes", Some("txt"), false).as_str(), "notes.txt*");
    assert_eq!(doc.refresh_title("notes", None, false).as_str(), "notes");
}

#[test]
fn render_model_is_consistent() {
    let mut doc = json_document("[1,\n2]");
    doc.set_caret_line_column(1, 1);
    doc.set_caret_column_to_current();
    let (text, events, caret) = doc.render_model();
    let shown: String = text.chars().iter().collect();
    assert_eq!(shown, "[1,\n2]");
    assert!(!events.is_empty());
    assert_eq!(caret, (1, 1));
}
