//! The document model: the `FileDocument` record, the external index's
//! generic document shape, and the two conversions between them
//! (record to indexable document, and indexed document back to record).

use vstd::prelude::*;

verus! {

/// A typed field value as the external index stores it. The index is
/// schema-less: a field may hold text or other kinds of data, and the
/// inbound conversion must check the kind it finds.
pub enum FieldValue {
    Text(String),
    Integer(i64),
}

/// One named field of an indexed document.
pub struct Field {
    pub name: String,
    pub value: FieldValue,
}

/// The external index's generic representation of a record: an identifier
/// and a list of named, typed fields.
pub struct Document {
    pub identifier: String,
    pub fields: Vec<Field>,
}

/// This library's typed representation of one file. The identifier is kept
/// as its string form; it must parse as a unique identifier on
/// reconstruction from a document.
#[derive(Debug)]
pub struct FileDocument {
    pub id: String,
    pub filename: String,
    pub path: String,
}

/// Why the inbound conversion of a document rejected it.
#[derive(PartialEq, Eq, Structural, Debug, Clone, Copy)]
pub enum DecodeError {
    /// The identifier string does not parse as a unique identifier.
    MalformedIdentifier,
    /// No field named `filename` is present.
    MissingFilename,
    /// The first field named `filename` is not of text kind.
    InvalidFilename,
    /// The first field named `filename` is the empty text; a record's
    /// filename must be non-empty.
    EmptyFilename,
    /// No field named `path` is present.
    MissingPath,
    /// The first field named `path` is not of text kind.
    InvalidPath,
}

/// Whether a string parses as a unique identifier.
/// Names the success of `uuid::Uuid::parse_str`, which depends on the
/// characters of its input alone.
pub uninterp spec fn uuid_parse_ok(s: Seq<char>) -> bool;

/// Relies on `uuid::Uuid::parse_str`: whether parsing succeeds is a
/// function of the input string alone.
#[verifier::external_body]
fn uuid_str_valid(s: &str) -> (r: bool)
    ensures
        r == uuid_parse_ok(s@),
{
    uuid::Uuid::parse_str(s).is_ok()
}

/// Relies on `uuid::Uuid::new_v4` and its `Display` impl: a fresh
/// identifier renders as the 36-character hyphenated form, which
/// `uuid::Uuid::parse_str` accepts.
#[verifier::external_body]
fn fresh_id() -> (r: String)
    ensures
        uuid_parse_ok(r@),
        r@.len() == 36,
{
    uuid::Uuid::new_v4().to_string()
}

/// The value of the first field with the given name, if any.
pub open spec fn first_named(fields: Seq<Field>, name: Seq<char>) -> Option<FieldValue>
    decreases fields.len(),
{
    if fields.len() == 0 {
        None
    } else if fields[0].name@ == name {
        Some(fields[0].value)
    } else {
        first_named(fields.subrange(1, fields.len() as int), name)
    }
}

/// The text of the first `filename` field, when it exists and is text.
pub open spec fn decoded_filename(doc: Document) -> Seq<char> {
    match first_named(doc.fields@, "filename"@) {
        Some(FieldValue::Text(s)) => s@,
        _ => Seq::empty(),
    }
}

/// The text of the first `path` field, when it exists and is text.
pub open spec fn decoded_path(doc: Document) -> Seq<char> {
    match first_named(doc.fields@, "path"@) {
        Some(FieldValue::Text(s)) => s@,
        _ => Seq::empty(),
    }
}

/// Why the inbound conversion rejects the document, or `None` when it
/// succeeds: the identifier must parse, then the first `filename` field
/// must exist and be non-empty text, then the first `path` field must
/// exist and be text.
pub open spec fn decode_err_spec(doc: Document) -> Option<DecodeError> {
    if !uuid_parse_ok(doc.identifier@) {
        Some(DecodeError::MalformedIdentifier)
    } else {
        match first_named(doc.fields@, "filename"@) {
            None => Some(DecodeError::MissingFilename),
            Some(FieldValue::Text(f)) => if f@.len() == 0 {
                Some(DecodeError::EmptyFilename)
            } else {
                match first_named(doc.fields@, "path"@) {
                    None => Some(DecodeError::MissingPath),
                    Some(FieldValue::Text(_)) => None,
                    Some(_) => Some(DecodeError::InvalidPath),
                }
            },
            Some(_) => Some(DecodeError::InvalidFilename),
        }
    }
}

/// The shape of an indexable document carrying the two observable fields:
/// exactly a text `filename` field and then a text `path` field.
pub open spec fn doc_shape(doc: Document, filename: Seq<char>, path: Seq<char>) -> bool {
    &&& doc.fields@.len() == 2
    &&& doc.fields@[0].name@ == "filename"@
    &&& (doc.fields@[0].value matches FieldValue::Text(f) && f@ == filename)
    &&& doc.fields@[1].name@ == "path"@
    &&& (doc.fields@[1].value matches FieldValue::Text(p) && p@ == path)
}

/// The document `doc` is the outbound serialization of the record `rec`.
pub open spec fn encodes(rec: FileDocument, doc: Document) -> bool {
    &&& doc.identifier@ == rec.id@
    &&& doc_shape(doc, rec.filename@, rec.path@)
}

impl FileDocument {
    /// Outbound conversion from a traversal entry, given as its base name
    /// and its full path: a fresh identifier, the entry's name and path.
    /// Always succeeds.
    pub fn from_entry(filename: &str, path: &str) -> (r: FileDocument)
        requires
            filename@.len() > 0,
        ensures
            r.filename@ == filename@,
            r.path@ == path@,
            uuid_parse_ok(r.id@),
    {
        FileDocument {
            id: fresh_id(),
            filename: String::from_str(filename),
            path: String::from_str(path),
        }
    }

    /// Serializes the record into the external index's document shape:
    /// its identifier, a text `filename` field and a text `path` field.
    pub fn to_document(&self) -> (doc: Document)
        ensures
            encodes(*self, doc),
    {
        let fields: Vec<Field> = vec![
            Field { name: String::from_str("filename"), value: FieldValue::Text(self.filename.clone()) },
            Field { name: String::from_str("path"), value: FieldValue::Text(self.path.clone()) },
        ];
        Document { identifier: self.id.clone(), fields }
    }

    /// Inbound conversion: reconstructs a record from an indexed document.
    /// Fails iff the identifier does not parse, the first `filename`
    /// field is absent, not text or empty, or the first `path` field is
    /// absent or not text; otherwise the record keeps the document's
    /// identifier and the two fields' text.
    pub fn try_from_document(doc: &Document) -> (r: Result<FileDocument, DecodeError>)
        ensures
            match r {
                Ok(rec) => {
                    &&& decode_err_spec(*doc) is None
                    &&& rec.id@ == doc.identifier@
                    &&& rec.filename@ == decoded_filename(*doc)
                    &&& rec.path@ == decoded_path(*doc)
                },
                Err(e) => decode_err_spec(*doc) == Some(e),
            },
    {
        if !uuid_str_valid(doc.identifier.as_str()) {
            return Err(DecodeError::MalformedIdentifier);
        }
        let filename = match find_text(&doc.fields, "filename") {
            Ok(s) => s,
            Err(missing) => {
                if missing {
                    return Err(DecodeError::MissingFilename);
                } else {
                    return Err(DecodeError::InvalidFilename);
                }
            },
        };
        if filename.as_str().is_empty() {
            return Err(DecodeError::EmptyFilename);
        }
        let path = match find_text(&doc.fields, "path") {
            Ok(s) => s,
            Err(missing) => {
                if missing {
                    return Err(DecodeError::MissingPath);
                } else {
                    return Err(DecodeError::InvalidPath);
                }
            },
        };
        Ok(FileDocument { id: doc.identifier.clone(), filename, path })
    }
}

/// Finds the first field with the given name and returns its text.
/// `Err(true)` means no such field; `Err(false)` means the field exists
/// but is not of text kind.
fn find_text(fields: &Vec<Field>, name: &str) -> (r: Result<String, bool>)
    ensures
        match r {
            Ok(s) => first_named(fields@, name@) matches Some(FieldValue::Text(t)) && t@ == s@,
            Err(missing) => {
                if missing {
                    first_named(fields@, name@) is None
                } else {
                    !(first_named(fields@, name@) is None)
                        && !(first_named(fields@, name@) matches Some(FieldValue::Text(_)))
                }
            },
        },
{
    let name_string = String::from_str(name);
    let n = fields.len();
    let mut i: usize = 0;
    proof {
        assert(fields@.subrange(0, n as int) =~= fields@);
    }
    while i < n
        invariant
            n == fields@.len(),
            i <= n,
            name_string@ == name@,
            first_named(fields@, name@) == first_named(
                fields@.subrange(i as int, n as int),
                name@,
            ),
        decreases n - i,
    {
        proof {
            assert(fields@.subrange(i as int, n as int)[0] == fields@[i as int]);
        }
        if fields[i].name == name_string {
            match &fields[i].value {
                FieldValue::Text(s) => {
                    return Ok(s.clone());
                },
                _ => {
                    return Err(false);
                },
            }
        }
        proof {
            assert(fields@.subrange(i as int, n as int).subrange(
                1,
                (n - i) as int,
            ) =~= fields@.subrange(i as int + 1, n as int));
        }
        i = i + 1;
    }
    proof {
        assert(fields@.subrange(n as int, n as int).len() == 0);
    }
    Err(true)
}

/// Decode robustness: a document with no `filename` field, or whose first
/// `filename` field is the empty text, or whose first `path` field is
/// present but not of text kind, never decodes into a record.
pub proof fn lemma_decode_rejects_malformed(doc: Document)
    ensures
        first_named(doc.fields@, "filename"@) is None ==> !(decode_err_spec(doc) is None),
        (first_named(doc.fields@, "filename"@) matches Some(FieldValue::Text(f)) && f@.len()
            == 0) ==> !(decode_err_spec(doc) is None),
        (first_named(doc.fields@, "path"@) matches Some(v) && !(v is Text)) ==> !(
        decode_err_spec(doc) is None),
{
}

/// Round trip: a record serialized by the outbound conversion decodes back
/// to equal `filename` and `path`; when its identifier parses and its
/// filename is non-empty (as every freshly built record's are), the
/// inbound conversion succeeds.
pub proof fn lemma_round_trip(rec: FileDocument, doc: Document)
    requires
        encodes(rec, doc),
        rec.filename@.len() > 0,
    ensures
        uuid_parse_ok(rec.id@) ==> decode_err_spec(doc) is None,
        decoded_filename(doc) == rec.filename@,
        decoded_path(doc) == rec.path@,
{
    reveal_strlit("filename");
    reveal_strlit("path");
    assert("filename"@.len() == 8);
    assert("path"@.len() == 4);
    let fields = doc.fields@;
    assert(fields[0].name@ == "filename"@);
    assert(first_named(fields, "filename"@) == Some(fields[0].value));
    let rest = fields.subrange(1, fields.len() as int);
    assert(rest[0] == fields[1]);
    assert(fields[0].name@ != "path"@);
    assert(first_named(fields, "path"@) == first_named(rest, "path"@));
    assert(first_named(rest, "path"@) == Some(fields[1].value));
}

} // verus!
