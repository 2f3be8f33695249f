use file_explorer::document::{Document, Field, FieldValue};
use file_explorer::resolver::resolve_results;

fn text_field(name: &str, value: &str) -> Field {
    Field { name: name.to_string(), value: FieldValue::Text(value.to_string()) }
}

fn well_formed(filename: &str, path: &str) -> Document {
    Document {
        identifier: "550e8400-e29b-41d4-a716-446655440000".to_string(),
        fields: vec![text_field("filename", filename), text_field("path", path)],
    }
}

#[test]
fn query_drops_documents_that_fail_to_decode() {
    let good = well_formed("a.txt", "/root/a.txt");
    let missing_path = Document {
        identifier: "550e8400-e29b-41d4-a716-446655440000".to_string(),
        fields: vec![text_field("filename", "b.txt")],
    };
    let results = resolve_results(&vec![good, missing_path]);
    assert_eq!(results.len(), 1);
    assert_eq!(results[0].title, "a.txt");
    assert_eq!(results[0].description, "/root/a.txt");
    assert!(results[0].preview.is_none());
}

#[test]
fn query_drops_documents_with_non_text_path() {
    let bad = Document {
        identifier: "550e8400-e29b-41d4-a716-446655440000".to_string(),
        fields: vec![
            text_field("filename", "b.txt"),
            Field { name: "path".to_string(), value: FieldValue::Integer(9) },
        ],
    };
    let results = resolve_results(&vec![bad]);
    assert!(results.is_empty());
}

#[test]
fn query_drops_documents_with_empty_filename() {
    let results = resolve_results(&vec![well_formed("", "/r/x")]);
    assert!(results.is_empty());
}

#[test]
fn query_keeps_backend_order() {
    let docs = vec![well_formed("b.txt", "/r/b.txt"), well_formed("a.txt", "/r/a.txt")];
    let results = resolve_results(&docs);
    assert_eq!(results.len(), 2);
    assert_eq!(results[0].title, "b.txt");
    assert_eq!(results[1].title, "a.txt");
}

#[test]
fn query_of_empty_response_is_empty() {
    assert!(resolve_results(&Vec::new()).is_empty());
}
