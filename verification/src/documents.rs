//! Document listing and enrichment: stored keyword and topic columns are
//! decoded for the listing endpoint, and the backfill writes them through
//! the encoder.
use vstd::prelude::*;

use crate::codec::{decode_string_list, enc_string_list, encode_string_list, parse_string_list};
use crate::error::ApiError;
use crate::models::DocumentWithMetadata;
use crate::store::{has_doc, ConversationStore, Document};

verus! {

/// How a stored column reads at the listing endpoint: an unset column or one
/// that does not parse as a string list reads as the empty list.
pub open spec fn decoded_or_empty(o: Option<String>) -> Seq<Seq<char>> {
    match o {
        None => Seq::empty(),
        Some(s) => match parse_string_list(s@) {
            Some(l) => l,
            None => Seq::empty(),
        },
    }
}

/// Decodes a stored column, reading absence and parse failure as the empty
/// list.
fn decode_or_empty(o: &Option<String>) -> (r: Vec<String>)
    ensures
        r.deep_view() == decoded_or_empty(*o),
{
    match o {
        None => {
            let r: Vec<String> = Vec::new();
            proof {
                assert(r.deep_view() =~= Seq::<Seq<char>>::empty());
            }
            r
        },
        Some(s) => match decode_string_list(s) {
            Some(l) => l,
            None => {
                let r: Vec<String> = Vec::new();
                proof {
                    assert(r.deep_view() =~= Seq::<Seq<char>>::empty());
                }
                r
            },
        },
    }
}

/// Shapes one document row for the listing endpoint, with its decoded
/// keyword and topic lists.
pub fn to_document_with_metadata(d: &Document) -> (r: DocumentWithMetadata)
    ensures
        r.id@ == d.id@,
        r.filename@ == d.filename@,
        r.uploaded_at@ == d.uploaded_at@,
        r.keywords.deep_view() == decoded_or_empty(d.keywords),
        r.topics.deep_view() == decoded_or_empty(d.topics),
{
    DocumentWithMetadata {
        id: d.id.clone(),
        filename: d.filename.clone(),
        keywords: decode_or_empty(&d.keywords),
        topics: decode_or_empty(&d.topics),
        uploaded_at: d.uploaded_at.clone(),
    }
}

/// The listing endpoint: up to `limit` most recently uploaded documents,
/// most recent first, each with its decoded keyword and topic lists.
pub fn list_documents_with_metadata(store: &ConversationStore, limit: i32) -> (r: Vec<
    DocumentWithMetadata,
>)
    ensures
        r@.len() == if limit < 0 {
            store.docs().len() as int
        } else if (limit as int) < store.docs().len() {
            limit as int
        } else {
            store.docs().len() as int
        },
        forall|k: int|
            0 <= k < r@.len() ==> {
                let d = store.docs()[store.docs().len() - 1 - k];
                &&& (#[trigger] r@[k]).id@ == d.id@
                &&& r@[k].filename@ == d.filename@
                &&& r@[k].uploaded_at@ == d.uploaded_at@
                &&& r@[k].keywords.deep_view() == decoded_or_empty(d.keywords)
                &&& r@[k].topics.deep_view() == decoded_or_empty(d.topics)
            },
{
    let docs = store.list_recent_documents(limit);
    let mut r: Vec<DocumentWithMetadata> = Vec::new();
    let mut k: usize = 0;
    while k < docs.len()
        invariant
            k <= docs@.len(),
            r@.len() == k,
            forall|j: int|
                0 <= j < docs@.len() ==> docs@[j] == store.docs()[store.docs().len() - 1 - j],
            forall|j: int|
                0 <= j < k ==> {
                    let d = store.docs()[store.docs().len() - 1 - j];
                    &&& (#[trigger] r@[j]).id@ == d.id@
                    &&& r@[j].filename@ == d.filename@
                    &&& r@[j].uploaded_at@ == d.uploaded_at@
                    &&& r@[j].keywords.deep_view() == decoded_or_empty(d.keywords)
                    &&& r@[j].topics.deep_view() == decoded_or_empty(d.topics)
                },
        decreases docs@.len() - k,
    {
        r.push(to_document_with_metadata(&docs[k]));
        k += 1;
    }
    r
}

/// Writes extracted keyword and topic lists to the document, both encoded as
/// JSON string arrays, together, stamped with the current time.
pub fn apply_extracted_metadata(
    store: &mut ConversationStore,
    document_id: &String,
    keywords: &Vec<String>,
    topics: &Vec<String>,
) -> (r: Result<(), ApiError>)
    requires
        old(store).wf(),
    ensures
        final(store).wf(),
        r is Ok,
        final(store).convs() == old(store).convs(),
        final(store).msgs() == old(store).msgs(),
        !has_doc(old(store).docs(), document_id@) ==> final(store).docs() == old(store).docs(),
        has_doc(old(store).docs(), document_id@) ==> exists|i: int|
            {
                &&& 0 <= i < old(store).docs().len()
                &&& old(store).docs()[i].id@ == document_id@
                &&& final(store).docs().len() == old(store).docs().len()
                &&& ((#[trigger] final(store).docs()[i]).keywords matches Some(ks) && ks@
                    == enc_string_list(keywords.deep_view()))
                &&& (final(store).docs()[i].topics matches Some(ts) && ts@ == enc_string_list(
                    topics.deep_view(),
                ))
                &&& final(store).docs()[i].id@ == old(store).docs()[i].id@
                &&& final(store).docs()[i].filename@ == old(store).docs()[i].filename@
                &&& final(store).docs()[i].uploaded_at@ == old(store).docs()[i].uploaded_at@
                &&& (forall|k: int|
                    0 <= k < old(store).docs().len() && k != i ==> final(store).docs()[k] == old(
                        store,
                    ).docs()[k])
            },
{
    let keywords_json = encode_string_list(keywords);
    let topics_json = encode_string_list(topics);
    store.update_document_metadata(document_id, Some(keywords_json), Some(topics_json))
}

/// The stored-metadata round trip at the listing endpoint: a column written
/// by the backfill as an encoded list reads back as exactly that list, and
/// an unset column reads back as the empty list, not as nothing.
pub proof fn lemma_column_round_trip(l: Seq<Seq<char>>, stored: Option<String>)
    ensures
        (stored matches Some(s) && s@ == enc_string_list(l)) ==> decoded_or_empty(stored) == l,
        stored is None ==> decoded_or_empty(stored) == Seq::<Seq<char>>::empty(),
{
    match stored {
        Some(s) => {
            if s@ == enc_string_list(l) {
                crate::codec::lemma_list_round_trip(l);
            }
        },
        None => {},
    }
}

} // verus!
