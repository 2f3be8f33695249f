use file_explorer::document::{DecodeError, Document, Field, FieldValue, FileDocument};

fn text_field(name: &str, value: &str) -> Field {
    Field { name: name.to_string(), value: FieldValue::Text(value.to_string()) }
}

#[test]
fn round_trip_keeps_filename_and_path() {
    let rec = FileDocument::from_entry("a.txt", "/root/a.txt");
    let doc = rec.to_document();
    let back = match FileDocument::try_from_document(&doc) {
        Ok(r) => r,
        Err(e) => panic!("round trip failed: {:?}", e),
    };
    assert_eq!(back.filename, "a.txt");
    assert_eq!(back.path, "/root/a.txt");
    assert_eq!(back.id, rec.id);
}

#[test]
fn fresh_identifier_parses_as_uuid() {
    let rec = FileDocument::from_entry("a.txt", "/root/a.txt");
    assert!(uuid::Uuid::parse_str(&rec.id).is_ok());
    assert_eq!(rec.id.len(), 36);
}

#[test]
fn encode_produces_filename_then_path() {
    let rec = FileDocument::from_entry("a.txt", "/root/a.txt");
    let doc = rec.to_document();
    assert_eq!(doc.identifier, rec.id);
    assert_eq!(doc.fields.len(), 2);
    assert_eq!(doc.fields[0].name, "filename");
    assert!(matches!(&doc.fields[0].value, FieldValue::Text(t) if t == "a.txt"));
    assert_eq!(doc.fields[1].name, "path");
    assert!(matches!(&doc.fields[1].value, FieldValue::Text(t) if t == "/root/a.txt"));
}

#[test]
fn decode_accepts_well_formed_document() {
    let doc = Document {
        identifier: "550e8400-e29b-41d4-a716-446655440000".to_string(),
        fields: vec![text_field("filename", "a.txt"), text_field("path", "/root/a.txt")],
    };
    let rec = FileDocument::try_from_document(&doc).unwrap();
    assert_eq!(rec.id, "550e8400-e29b-41d4-a716-446655440000");
    assert_eq!(rec.filename, "a.txt");
    assert_eq!(rec.path, "/root/a.txt");
}

#[test]
fn decode_rejects_malformed_identifier() {
    let doc = Document {
        identifier: "not-a-uuid".to_string(),
        fields: vec![text_field("filename", "a.txt"), text_field("path", "/root/a.txt")],
    };
    assert_eq!(
        FileDocument::try_from_document(&doc).unwrap_err(),
        DecodeError::MalformedIdentifier
    );
}

#[test]
fn decode_rejects_missing_filename() {
    let doc = Document {
        identifier: "550e8400-e29b-41d4-a716-446655440000".to_string(),
        fields: vec![text_field("path", "/root/a.txt")],
    };
    assert_eq!(FileDocument::try_from_document(&doc).unwrap_err(), DecodeError::MissingFilename);
}

#[test]
fn decode_rejects_empty_filename() {
    let doc = Document {
        identifier: "550e8400-e29b-41d4-a716-446655440000".to_string(),
        fields: vec![text_field("filename", ""), text_field("path", "/root/a.txt")],
    };
    assert_eq!(FileDocument::try_from_document(&doc).unwrap_err(), DecodeError::EmptyFilename);
}

#[test]
fn decode_rejects_non_text_filename() {
    let doc = Document {
        identifier: "550e8400-e29b-41d4-a716-446655440000".to_string(),
        fields: vec![
            Field { name: "filename".to_string(), value: FieldValue::Integer(7) },
            text_field("path", "/root/a.txt"),
        ],
    };
    assert_eq!(FileDocument::try_from_document(&doc).unwrap_err(), DecodeError::InvalidFilename);
}

#[test]
fn decode_rejects_missing_path() {
    let doc = Document {
        identifier: "550e8400-e29b-41d4-a716-446655440000".to_string(),
        fields: vec![text_field("filename", "a.txt")],
    };
    assert_eq!(FileDocument::try_from_document(&doc).unwrap_err(), DecodeError::MissingPath);
}

#[test]
fn decode_rejects_non_text_path() {
    let doc = Document {
        identifier: "550e8400-e29b-41d4-a716-446655440000".to_string(),
        fields: vec![
            text_field("filename", "a.txt"),
            Field { name: "path".to_string(), value: FieldValue::Integer(3) },
        ],
    };
    assert_eq!(FileDocument::try_from_document(&doc).unwrap_err(), DecodeError::InvalidPath);
}

#[test]
fn decode_uses_first_field_of_each_name() {
    let doc = Document {
        identifier: "550e8400-e29b-41d4-a716-446655440000".to_string(),
        fields: vec![
            Field { name: "filename".to_string(), value: FieldValue::Integer(1) },
            text_field("filename", "late.txt"),
            text_field("path", "/root/late.txt"),
        ],
    };
    assert_eq!(FileDocument::try_from_document(&doc).unwrap_err(), DecodeError::InvalidFilename);
}
