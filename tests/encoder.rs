use espipe::{encode_batch, BulkAction, Document, EncodingError, Field, FieldValue};

fn text(name: &str, value: &str) -> Field {
    Field { name: name.to_string(), value: FieldValue::Text(value.to_string()) }
}

fn json(name: &str, value: &str) -> Field {
    Field { name: name.to_string(), value: FieldValue::Json(value.to_string()) }
}

fn message(m: &str) -> Document {
    Document::Object(vec![text("message", m)])
}

#[test]
fn create_batch_has_two_lines_per_document() {
    let docs = vec![message("hello"), message("world"), message("again")];
    let lines = encode_batch(BulkAction::Create, &docs).unwrap();
    assert_eq!(lines.len(), 6);
    assert_eq!(lines[0], r#"{"create":{}}"#);
    assert_eq!(lines[1], r#"{"message":"hello"}"#);
    assert_eq!(lines[2], r#"{"create":{}}"#);
    assert_eq!(lines[3], r#"{"message":"world"}"#);
    assert_eq!(lines[5], r#"{"message":"again"}"#);
}

#[test]
fn index_batch_keeps_documents_verbatim() {
    let docs = vec![
        Document::Object(vec![text("_id", "a1"), json("n", "3"), json("tags", r#"["x","y"]"#)]),
        Document::Other("42".to_string()),
    ];
    let lines = encode_batch(BulkAction::Index, &docs).unwrap();
    assert_eq!(
        lines,
        vec![
            r#"{"index":{}}"#.to_string(),
            r#"{"_id":"a1","n":3,"tags":["x","y"]}"#.to_string(),
            r#"{"index":{}}"#.to_string(),
            "42".to_string(),
        ]
    );
}

#[test]
fn update_moves_the_identifier_into_the_action_line() {
    let docs = vec![
        Document::Object(vec![text("_id", "a1"), text("message", "hi")]),
        Document::Object(vec![json("count", "7"), text("_id", "b2")]),
    ];
    let lines = encode_batch(BulkAction::Update, &docs).unwrap();
    assert_eq!(lines.len(), 4);
    assert_eq!(lines[0], r#"{"update":{"_id":"a1"}}"#);
    assert_eq!(lines[1], r#"{"doc":{"message":"hi"}}"#);
    assert_eq!(lines[2], r#"{"update":{"_id":"b2"}}"#);
    assert_eq!(lines[3], r#"{"doc":{"count":7}}"#);
    assert!(lines[2].contains("b2"));
}

#[test]
fn update_of_document_with_only_an_identifier_sends_an_empty_doc() {
    let docs = vec![Document::Object(vec![text("_id", "only")])];
    let lines = encode_batch(BulkAction::Update, &docs).unwrap();
    assert_eq!(lines, vec![r#"{"update":{"_id":"only"}}"#.to_string(), r#"{"doc":{}}"#.to_string()]);
}

#[test]
fn update_without_identifier_fails_the_whole_batch() {
    let docs = vec![
        Document::Object(vec![text("_id", "a1"), text("message", "hi")]),
        message("no id here"),
        Document::Object(vec![text("_id", "c3")]),
    ];
    let err = encode_batch(BulkAction::Update, &docs).unwrap_err();
    assert_eq!(err, EncodingError::MissingId { position: 1 });
    assert_eq!(err.message(), "document 1 has no `_id` field");
    assert!(err.message().contains("_id"));
}

#[test]
fn update_with_non_string_identifier_fails() {
    let docs = vec![Document::Object(vec![json("_id", "12")])];
    let err = encode_batch(BulkAction::Update, &docs).unwrap_err();
    assert_eq!(err, EncodingError::IdNotString { position: 0 });
    assert_eq!(err.message(), "document 0 has an `_id` field that is not a string");
}

#[test]
fn update_of_non_object_fails() {
    let docs = vec![
        Document::Object(vec![text("_id", "a"), text("message", "fine")]),
        Document::Other("[1,2]".to_string()),
    ];
    let err = encode_batch(BulkAction::Update, &docs).unwrap_err();
    assert_eq!(err, EncodingError::NotAnObject { position: 1 });
    assert_eq!(err.message(), "document 1 is not an object");
}

#[test]
fn first_failing_document_is_reported() {
    let docs = vec![Document::Other("1".to_string()), message("no id")];
    let err = encode_batch(BulkAction::Update, &docs).unwrap_err();
    assert_eq!(err, EncodingError::NotAnObject { position: 0 });
}

#[test]
fn create_and_index_accept_documents_without_identifier() {
    let docs = vec![Document::Other("null".to_string()), message("x")];
    assert_eq!(encode_batch(BulkAction::Create, &docs).unwrap().len(), 4);
    assert_eq!(encode_batch(BulkAction::Index, &docs).unwrap().len(), 4);
}

#[test]
fn empty_batch_encodes_to_no_lines() {
    let docs: Vec<Document> = Vec::new();
    assert!(encode_batch(BulkAction::Create, &docs).unwrap().is_empty());
    assert!(encode_batch(BulkAction::Update, &docs).unwrap().is_empty());
}

#[test]
fn names_and_strings_are_escaped() {
    let docs = vec![Document::Object(vec![text("quo\"te", "line\nbreak\\")])];
    let lines = encode_batch(BulkAction::Create, &docs).unwrap();
    assert_eq!(lines[1], r#"{"quo\"te":"line\nbreak\\"}"#);
    let upd = vec![Document::Object(vec![text("_id", "a\"b"), text("k", "v")])];
    let lines = encode_batch(BulkAction::Update, &upd).unwrap();
    assert_eq!(lines[0], r#"{"update":{"_id":"a\"b"}}"#);
}

#[test]
fn document_text_is_compact_json() {
    let d = Document::Object(vec![json("a", "1"), json("b", "null"), text("c", "d")]);
    assert_eq!(d.to_json(), r#"{"a":1,"b":null,"c":"d"}"#);
    assert_eq!(Document::Object(Vec::new()).to_json(), "{}");
    assert_eq!(Document::Other("true".to_string()).to_json(), "true");
}

#[test]
fn default_action_is_create() {
    assert_eq!(BulkAction::default(), BulkAction::Create);
}

#[test]
fn control_characters_are_written_as_unicode_escapes() {
    let docs = vec![Document::Object(vec![text("k", "a\u{1}b\u{8}\u{c}\r\t\u{e9}")])];
    let lines = encode_batch(BulkAction::Index, &docs).unwrap();
    assert_eq!(lines[1], "{\"k\":\"a\\u0001b\\b\\f\\r\\t\u{e9}\"}");
    let docs = vec![Document::Object(vec![text("k", "\u{1f}")])];
    let lines = encode_batch(BulkAction::Index, &docs).unwrap();
    assert_eq!(lines[1], "{\"k\":\"\\u001f\"}");
}
