//! The indexer: selects the indexable entries of a traversal under an
//! exclusion policy and builds the document batch to submit to the
//! external index.

use vstd::prelude::*;
use crate::document::{doc_shape, uuid_parse_ok, Document, FileDocument};
use crate::policy::PolicyView;
use crate::policy::State;

verus! {

/// One entry of a directory traversal: its path components relative to the
/// traversal root (base name last) and whether it is a directory.
pub struct FsEntry {
    pub components: Vec<String>,
    pub is_dir: bool,
}

/// Mathematical view of a traversal entry.
pub struct EntryView {
    pub components: Seq<Seq<char>>,
    pub is_dir: bool,
}

impl View for FsEntry {
    type V = EntryView;

    open spec fn view(&self) -> EntryView {
        EntryView {
            components: self.components@.map_values(|s: String| s@),
            is_dir: self.is_dir,
        }
    }
}

/// The views of a sequence of traversal entries.
pub open spec fn entry_views(entries: Seq<FsEntry>) -> Seq<EntryView> {
    entries.map_values(|e: FsEntry| e@)
}

/// An entry is indexed iff it is a regular file with a non-empty base name
/// and no ancestor directory name (any component but the base name) is in
/// the excluded set.
pub open spec fn indexable(policy: PolicyView, e: EntryView) -> bool {
    &&& !e.is_dir
    &&& e.components.len() >= 1
    &&& e.components.last().len() >= 1
    &&& forall|j: int| 0 <= j < e.components.len() - 1 ==> !policy.dirs.contains(e.components[j])
}

/// The subsequence of entries that the indexer keeps, in traversal order.
pub open spec fn selected(policy: PolicyView, entries: Seq<EntryView>) -> Seq<EntryView>
    decreases entries.len(),
{
    if entries.len() == 0 {
        Seq::empty()
    } else {
        let rest = selected(policy, entries.drop_last());
        if indexable(policy, entries.last()) {
            rest.push(entries.last())
        } else {
            rest
        }
    }
}

/// The full path of an entry: the root, then each component behind `/`.
pub open spec fn spec_join(root: Seq<char>, components: Seq<Seq<char>>) -> Seq<char>
    decreases components.len(),
{
    if components.len() == 0 {
        root
    } else {
        spec_join(root, components.drop_last()) + "/"@ + components.last()
    }
}

/// The document carries the entry's base name as its `filename` field and
/// the entry's full path as its `path` field, under an identifier that
/// parses as a unique identifier.
pub open spec fn doc_matches_entry(doc: Document, e: EntryView, root: Seq<char>) -> bool {
    &&& uuid_parse_ok(doc.identifier@)
    &&& doc_shape(doc, e.components.last(), spec_join(root, e.components))
}

/// The batch `docs` is one valid indexing of `entries` under `policy` from
/// `root`: one document per selected entry, in order, each carrying the
/// entry's base name and full path, under an identifier that parses.
pub open spec fn batch_matches(
    policy: PolicyView,
    entries: Seq<EntryView>,
    root: Seq<char>,
    docs: Seq<Document>,
) -> bool {
    &&& docs.len() == selected(policy, entries).len()
    &&& forall|i: int|
        0 <= i < docs.len() ==> #[trigger] doc_matches_entry(
            docs[i],
            selected(policy, entries)[i],
            root,
        )
}

/// Joins the root and the entry's components with `/` separators.
pub fn join_path(root: &str, components: &Vec<String>) -> (r: String)
    ensures
        r@ == spec_join(root@, components@.map_values(|s: String| s@)),
{
    let ghost comps = components@.map_values(|s: String| s@);
    let mut r = root.to_owned();
    let n = components.len();
    let mut i: usize = 0;
    proof {
        assert(comps.subrange(0, 0).len() == 0);
    }
    while i < n
        invariant
            n == components@.len(),
            comps == components@.map_values(|s: String| s@),
            i <= n,
            r@ == spec_join(root@, comps.subrange(0, i as int)),
        decreases n - i,
    {
        r.append("/");
        r.append(components[i].as_str());
        proof {
            let upto = comps.subrange(0, i as int + 1);
            assert(upto.drop_last() =~= comps.subrange(0, i as int));
            assert(upto.last() == comps[i as int]);
        }
        i = i + 1;
    }
    proof {
        assert(comps.subrange(0, n as int) =~= comps);
    }
    r
}

/// Whether the entry is indexable under the policy.
fn entry_indexable(policy: &State, entry: &FsEntry) -> (r: bool)
    ensures
        r == indexable(policy@, entry@),
{
    if entry.is_dir {
        return false;
    }
    let n = entry.components.len();
    if n == 0 {
        return false;
    }
    if entry.components[n - 1].as_str().is_empty() {
        return false;
    }
    let mut j: usize = 0;
    while j < n - 1
        invariant
            n == entry.components@.len(),
            n >= 1,
            j <= n - 1,
            !entry.is_dir,
            forall|k: int| 0 <= k < j ==> !policy@.dirs.contains(entry@.components[k]),
        decreases n - j,
    {
        if policy.should_skip(entry.components[j].as_str(), true) {
            proof {
                assert(entry@.components[j as int] == entry.components@[j as int]@);
            }
            return false;
        }
        j = j + 1;
    }
    true
}

/// Builds the batch of documents that one indexing run submits: one
/// document per indexable entry, in traversal order, carrying the entry's
/// base name as `filename` and its full path as `path`, under a freshly
/// generated identifier.
pub fn build_batch(policy: &State, entries: &Vec<FsEntry>, root: &str) -> (docs: Vec<Document>)
    ensures
        batch_matches(policy@, entry_views(entries@), root@, docs@),
{
    let ghost views = entry_views(entries@);
    let mut docs: Vec<Document> = Vec::new();
    let n = entries.len();
    let mut i: usize = 0;
    proof {
        assert(views.subrange(0, 0) =~= Seq::<EntryView>::empty());
    }
    while i < n
        invariant
            n == entries@.len(),
            views == entry_views(entries@),
            i <= n,
            batch_matches(policy@, views.subrange(0, i as int), root@, docs@),
        decreases n - i,
    {
        let ghost prefix = views.subrange(0, i as int);
        let ghost prefix1 = views.subrange(0, i as int + 1);
        proof {
            assert(prefix1.drop_last() =~= prefix);
            assert(prefix1.last() == entries@[i as int]@);
        }
        let entry = &entries[i];
        if entry_indexable(policy, entry) {
            let path = join_path(root, &entry.components);
            let last = entry.components.len() - 1;
            let rec = FileDocument::from_entry(entry.components[last].as_str(), path.as_str());
            let doc = rec.to_document();
            let ghost docs_old = docs@;
            docs.push(doc);
            proof {
                let ev = entries@[i as int]@;
                let sel = selected(policy@, prefix);
                let sel1 = selected(policy@, prefix1);
                assert(sel1 =~= sel.push(ev));
                assert(ev.components == entry.components@.map_values(|s: String| s@));
                assert(ev.components.last() == entry.components@[last as int]@);
                assert(rec.filename@ == ev.components.last());
                assert(rec.path@ == spec_join(root@, ev.components));
                assert(doc_shape(doc, ev.components.last(), spec_join(root@, ev.components)));
                assert(docs@ == docs_old.push(doc));
                assert(doc_matches_entry(doc, ev, root@));
                assert forall|k: int| 0 <= k < docs@.len() implies #[trigger] doc_matches_entry(
                    docs@[k],
                    selected(policy@, prefix1)[k],
                    root@,
                ) by {
                    if k < docs_old.len() {
                        assert(selected(policy@, prefix1)[k] == selected(policy@, prefix)[k]);
                        assert(docs@[k] == docs_old[k]);
                        assert(doc_matches_entry(docs_old[k], selected(policy@, prefix)[k], root@));
                    } else {
                        assert(selected(policy@, prefix1)[k] == ev);
                        assert(docs@[k] == doc);
                    }
                }
                assert(docs@.len() == selected(policy@, prefix1).len());
                assert(batch_matches(policy@, prefix1, root@, docs@));
            }
        } else {
            proof {
                assert(selected(policy@, prefix1) =~= selected(policy@, prefix));
                assert forall|k: int| 0 <= k < docs@.len() implies #[trigger] doc_matches_entry(
                    docs@[k],
                    selected(policy@, prefix1)[k],
                    root@,
                ) by {
                    assert(selected(policy@, prefix1)[k] == selected(policy@, prefix)[k]);
                    assert(doc_matches_entry(docs@[k], selected(policy@, prefix)[k], root@));
                }
                assert(batch_matches(policy@, prefix1, root@, docs@));
            }
        }
        i = i + 1;
        proof {
            assert(views.subrange(0, i as int) =~= prefix1);
        }
    }
    proof {
        assert(views.subrange(0, n as int) =~= views);
    }
    docs
}

/// Every selected entry is indexable; in particular (the exclusion
/// invariant) no entry with an ancestor directory name in the excluded
/// set appears in the batch.
pub proof fn lemma_selected_indexable(policy: PolicyView, entries: Seq<EntryView>)
    ensures
        forall|i: int|
            0 <= i < selected(policy, entries).len() ==> indexable(
                policy,
                #[trigger] selected(policy, entries)[i],
            ),
    decreases entries.len(),
{
    if entries.len() > 0 {
        lemma_selected_indexable(policy, entries.drop_last());
        let rest = selected(policy, entries.drop_last());
        let sel = selected(policy, entries);
        assert forall|i: int| 0 <= i < sel.len() implies indexable(policy, sel[i]) by {
            if indexable(policy, entries.last()) {
                assert(sel == rest.push(entries.last()));
                if i < rest.len() {
                    assert(sel[i] == rest[i]);
                }
            } else {
                assert(sel == rest);
            }
        }
    }
}

/// Exclusion invariant, stated over a batch: every document of a valid
/// batch stands for a selected entry, and that entry is a file none of
/// whose ancestor directory names is in the excluded set.
pub proof fn lemma_batch_respects_exclusions(
    policy: PolicyView,
    entries: Seq<EntryView>,
    root: Seq<char>,
    docs: Seq<Document>,
    i: int,
)
    requires
        batch_matches(policy, entries, root, docs),
        0 <= i < docs.len(),
    ensures
        doc_matches_entry(docs[i], selected(policy, entries)[i], root),
        indexable(policy, selected(policy, entries)[i]),
{
    lemma_selected_indexable(policy, entries);
}

/// Two field values carry the same data, compared by view.
pub open spec fn value_views_equal(
    v1: crate::document::FieldValue,
    v2: crate::document::FieldValue,
) -> bool {
    match (v1, v2) {
        (crate::document::FieldValue::Text(a), crate::document::FieldValue::Text(b)) => a@ == b@,
        (crate::document::FieldValue::Integer(a), crate::document::FieldValue::Integer(b)) => a
            == b,
        _ => false,
    }
}

/// Two documents agree on their fields (names and values), identifier
/// aside.
pub open spec fn same_fields(d1: Document, d2: Document) -> bool {
    &&& d1.fields@.len() == d2.fields@.len()
    &&& forall|j: int|
        0 <= j < d1.fields@.len() ==> #[trigger] d1.fields@[j].name@ == d2.fields@[j].name@
            && value_views_equal(d1.fields@[j].value, d2.fields@[j].value)
}

/// Idempotence boundary: two indexing runs over the same entries under the
/// same policy and root produce structurally equal batches — the same
/// length and, position by position, the same fields — differing at most
/// in their identifiers.
pub proof fn lemma_reindex_stable(
    policy: PolicyView,
    entries: Seq<EntryView>,
    root: Seq<char>,
    b1: Seq<Document>,
    b2: Seq<Document>,
)
    requires
        batch_matches(policy, entries, root, b1),
        batch_matches(policy, entries, root, b2),
    ensures
        b1.len() == b2.len(),
        forall|i: int| 0 <= i < b1.len() ==> same_fields(#[trigger] b1[i], b2[i]),
{
    assert forall|i: int| 0 <= i < b1.len() implies same_fields(#[trigger] b1[i], b2[i]) by {
        assert(doc_matches_entry(b1[i], selected(policy, entries)[i], root));
        assert(doc_matches_entry(b2[i], selected(policy, entries)[i], root));
    }
}

/// The number of file (non-directory) entries in a traversal.
pub open spec fn file_count(entries: Seq<EntryView>) -> nat
    decreases entries.len(),
{
    if entries.len() == 0 {
        0
    } else {
        file_count(entries.drop_last()) + if entries.last().is_dir {
            0nat
        } else {
            1nat
        }
    }
}

/// Counts the file entries of a traversal, without applying any exclusion
/// policy, for the debug report.
pub fn debug_count(entries: &Vec<FsEntry>) -> (n: usize)
    ensures
        n == file_count(entry_views(entries@)),
{
    let ghost views = entry_views(entries@);
    let total = entries.len();
    let mut n: usize = 0;
    let mut i: usize = 0;
    proof {
        assert(views.subrange(0, 0).len() == 0);
    }
    while i < total
        invariant
            total == entries@.len(),
            views == entry_views(entries@),
            i <= total,
            n <= i,
            n == file_count(views.subrange(0, i as int)),
        decreases total - i,
    {
        let ghost prefix1 = views.subrange(0, i as int + 1);
        proof {
            assert(prefix1.drop_last() =~= views.subrange(0, i as int));
            assert(prefix1.last() == entries@[i as int]@);
        }
        if !entries[i].is_dir {
            n = n + 1;
        }
        i = i + 1;
    }
    proof {
        assert(views.subrange(0, total as int) =~= views);
    }
    n
}

} // verus!
