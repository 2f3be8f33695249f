//! The query resolver: maps the raw documents of a search response back
//! into records and renders each successfully decoded one as a display
//! entry; documents that fail to decode are dropped silently.

use vstd::prelude::*;
use crate::document::{decode_err_spec, decoded_filename, decoded_path, Document, FileDocument};

verus! {

/// One display entry handed to the host: a title (the file's name), a
/// description (its path as text), and no preview content.
pub struct DisplayEntry {
    pub title: String,
    pub description: String,
    pub preview: Option<String>,
}

/// The titles and descriptions, in order, of the documents of a search
/// response that decode successfully: the filename and path text of each.
pub open spec fn display_of(docs: Seq<Document>) -> Seq<(Seq<char>, Seq<char>)>
    decreases docs.len(),
{
    if docs.len() == 0 {
        Seq::empty()
    } else {
        let rest = display_of(docs.drop_last());
        if decode_err_spec(docs.last()) is None {
            rest.push((decoded_filename(docs.last()), decoded_path(docs.last())))
        } else {
            rest
        }
    }
}

/// A document that fails to decode contributes nothing to the query
/// results: appending it to a response leaves the display entries as they
/// were, and the query itself still succeeds on the rest.
pub proof fn lemma_failed_decode_excluded(docs: Seq<Document>, doc: Document)
    requires
        !(decode_err_spec(doc) is None),
    ensures
        display_of(docs.push(doc)) == display_of(docs),
{
    assert(docs.push(doc).drop_last() =~= docs);
}

/// Decodes each document of a search response; every document that decodes
/// becomes a display entry titled by its filename and described by its
/// path, in response order, and every document that fails to decode is
/// dropped without error.
pub fn resolve_results(docs: &Vec<Document>) -> (r: Vec<DisplayEntry>)
    ensures
        r@.len() == display_of(docs@).len(),
        forall|i: int|
            0 <= i < r@.len() ==> {
                &&& (#[trigger] r@[i]).title@ == display_of(docs@)[i].0
                &&& r@[i].description@ == display_of(docs@)[i].1
                &&& r@[i].preview is None
            },
{
    let ghost all = docs@;
    let mut r: Vec<DisplayEntry> = Vec::new();
    let n = docs.len();
    let mut i: usize = 0;
    proof {
        assert(all.subrange(0, 0) =~= Seq::<Document>::empty());
    }
    while i < n
        invariant
            n == docs@.len(),
            all == docs@,
            i <= n,
            r@.len() == display_of(all.subrange(0, i as int)).len(),
            forall|k: int|
                0 <= k < r@.len() ==> {
                    &&& (#[trigger] r@[k]).title@ == display_of(all.subrange(0, i as int))[k].0
                    &&& r@[k].description@ == display_of(all.subrange(0, i as int))[k].1
                    &&& r@[k].preview is None
                },
        decreases n - i,
    {
        let ghost prefix = all.subrange(0, i as int);
        let ghost prefix1 = all.subrange(0, i as int + 1);
        proof {
            assert(prefix1.drop_last() =~= prefix);
            assert(prefix1.last() == all[i as int]);
        }
        match FileDocument::try_from_document(&docs[i]) {
            Ok(rec) => {
                let ghost r_old = r@;
                r.push(DisplayEntry { title: rec.filename, description: rec.path, preview: None });
                proof {
                    assert(display_of(prefix1) =~= display_of(prefix).push(
                        (decoded_filename(all[i as int]), decoded_path(all[i as int])),
                    ));
                    assert forall|k: int| 0 <= k < r@.len() implies {
                        &&& (#[trigger] r@[k]).title@ == display_of(prefix1)[k].0
                        &&& r@[k].description@ == display_of(prefix1)[k].1
                        &&& r@[k].preview is None
                    } by {
                        if k < r_old.len() {
                            assert(r@[k] == r_old[k]);
                            assert(display_of(prefix1)[k] == display_of(prefix)[k]);
                        } else {
                            assert(display_of(prefix1)[k] == (
                                decoded_filename(all[i as int]),
                                decoded_path(all[i as int]),
                            ));
                        }
                    }
                }
            },
            Err(_) => {
                proof {
                    assert(display_of(prefix1) =~= display_of(prefix));
                }
            },
        }
        i = i + 1;
        proof {
            assert(all.subrange(0, i as int) =~= prefix1);
        }
    }
    proof {
        assert(all.subrange(0, n as int) =~= all);
    }
    r
}

} // verus!
