use pdf_chat::backfill::{
    backoff_delays, needs_backfill, BackfillProgress, RetryDecision, RetryState,
    MAX_EXTRACTION_ATTEMPTS,
};
use pdf_chat::cache::MaterializationCache;
use pdf_chat::error::{api_error_from_io, api_error_from_message, ApiError};
use pdf_chat::storage::{has_pdf_header, LocalStorage, MemoryBlobStore, StorageError};
use pdf_chat::store::ConversationStore;

#[test]
fn backoff_waits_one_then_two_seconds_over_three_attempts() {
    assert_eq!(backoff_delays(MAX_EXTRACTION_ATTEMPTS), vec![1u64, 2u64]);
}

#[test]
fn retry_state_doubles_and_gives_up() {
    let mut st = RetryState::new();
    match st.on_failure(0, 3) {
        RetryDecision::Retry { delay_secs } => assert_eq!(delay_secs, 1),
        RetryDecision::GiveUp => panic!("the first failure must be retried"),
    }
    match st.on_failure(1, 3) {
        RetryDecision::Retry { delay_secs } => assert_eq!(delay_secs, 2),
        RetryDecision::GiveUp => panic!("the second failure must be retried"),
    }
    match st.on_failure(2, 3) {
        RetryDecision::GiveUp => (),
        RetryDecision::Retry { .. } => panic!("the third failure must surface"),
    }
    // The delay keeps doubling into the next document's attempts.
    match st.on_failure(0, 3) {
        RetryDecision::Retry { delay_secs } => assert_eq!(delay_secs, 8),
        RetryDecision::GiveUp => panic!("a fresh document gets its own attempts"),
    }
}

#[test]
fn batch_counts_reflect_outcomes_only() {
    let mut p = BackfillProgress::new();
    p.record(true).unwrap();
    p.record(false).unwrap();
    p.record(true).unwrap();
    let summary = p.into_response();
    assert_eq!(summary.processed, 3);
    assert_eq!(summary.succeeded, 2);
    assert_eq!(summary.failed, 1);
}

#[test]
fn enriched_documents_are_skipped() {
    let mut store = ConversationStore::new();
    store.create_document_at(&"d1".to_string(), &"a.pdf".to_string(), &"t0".to_string()).unwrap();
    let bare = store.get_document(&"d1".to_string()).unwrap();
    assert!(needs_backfill(&bare));
    store
        .update_document_metadata_at(
            &"d1".to_string(),
            Some("[\"k\"]".to_string()),
            Some("[\"t\"]".to_string()),
            &"t1".to_string(),
        )
        .unwrap();
    let enriched = store.get_document(&"d1".to_string()).unwrap();
    assert!(!needs_backfill(&enriched));
}

#[test]
fn message_wording_classifies_errors() {
    assert!(matches!(
        api_error_from_message("row not found in table".to_string()),
        ApiError::NotFound(_)
    ));
    assert!(matches!(
        api_error_from_message("Not found: thing".to_string()),
        ApiError::NotFound(_)
    ));
    assert!(matches!(
        api_error_from_message("SQL syntax error".to_string()),
        ApiError::DatabaseError(_)
    ));
    assert!(matches!(
        api_error_from_message("database is locked".to_string()),
        ApiError::DatabaseError(_)
    ));
    assert!(matches!(
        api_error_from_message("something odd".to_string()),
        ApiError::InternalError(_)
    ));
}

#[test]
fn io_failures_classify_by_kind() {
    assert!(matches!(api_error_from_io(true, "gone".to_string()), ApiError::NotFound(_)));
    assert!(matches!(api_error_from_io(false, "disk".to_string()), ApiError::StorageError(_)));
}

#[test]
fn status_codes_and_tags_follow_the_taxonomy() {
    let cases = vec![
        (ApiError::BadRequest("m".to_string()), 400, "BAD_REQUEST"),
        (ApiError::NotFound("m".to_string()), 404, "NOT_FOUND"),
        (ApiError::InternalError("m".to_string()), 500, "INTERNAL_ERROR"),
        (ApiError::DatabaseError("m".to_string()), 500, "DATABASE_ERROR"),
        (ApiError::StorageError("m".to_string()), 500, "STORAGE_ERROR"),
        (ApiError::ExternalApiError("m".to_string()), 502, "EXTERNAL_API_ERROR"),
    ];
    for (e, code, tag) in cases {
        assert_eq!(e.status_code(), code);
        assert_eq!(e.error_type(), tag);
        assert_eq!(e.message(), "m");
        let body = e.to_response();
        assert_eq!(body.error, tag);
        assert_eq!(body.message, "m");
        assert!(body.details.is_none());
    }
    assert!(ApiError::BadRequest("m".to_string()).is_client_error());
    assert!(!ApiError::DatabaseError("m".to_string()).is_client_error());
}

#[test]
fn pdf_header_rule() {
    assert!(has_pdf_header(&b"%PDF-1.7 rest".to_vec()));
    assert!(!has_pdf_header(&b"PDF".to_vec()));
    assert!(!has_pdf_header(&b"<html>".to_vec()));
    assert!(!has_pdf_header(&b"%PD".to_vec()));
}

#[test]
fn blob_store_rejects_bad_uploads_and_serves_bytes() {
    let mut blob = MemoryBlobStore::new();
    let bad = blob.store_pdf(&"x.bin".to_string(), b"nope".to_vec());
    assert!(matches!(bad, Err(StorageError::InvalidFormat)));

    let id = blob.store_pdf(&"x.pdf".to_string(), b"%PDF bytes".to_vec()).unwrap();
    assert!(blob.has_pdf(&id));
    assert_eq!(blob.get_pdf(&id).unwrap(), b"%PDF bytes".to_vec());

    let missing = blob.get_pdf(&"absent".to_string());
    assert!(matches!(missing, Err(StorageError::NotFound(_))));

    blob.store_metadata(&id, &b"{}".to_vec()).unwrap();
    assert_eq!(blob.get_metadata(&id).unwrap(), Some(b"{}".to_vec()));

    blob.delete(&id).unwrap();
    assert!(!blob.has_pdf(&id));
    assert_eq!(blob.get_metadata(&id).unwrap(), None);
}

#[test]
fn base64_text_matches_a_fresh_encoding() {
    let mut blob = MemoryBlobStore::new();
    let id = blob.store_pdf(&"x.pdf".to_string(), b"%PDF".to_vec()).unwrap();
    assert_eq!(blob.get_pdf_base64(&id).unwrap(), "JVBERg==");
}

#[test]
fn cache_is_transparent_across_cold_starts_and_evictions() {
    let bytes = b"%PDF cached content".to_vec();
    let id = "doc-1".to_string();

    let mut warm = MaterializationCache::new(100, 3600);
    let first = warm.materialize(&id, &bytes);
    let hit = warm.get_or_compute(&id, &bytes);
    assert_eq!(hit, first);

    let mut cold = MaterializationCache::new(100, 3600);
    let recomputed = cold.get_or_compute(&id, &bytes);
    assert_eq!(recomputed, first);

    let mut tiny = MaterializationCache::new(0, 1);
    let evicted = tiny.get_or_compute(&id, &bytes);
    assert_eq!(evicted, first);

    assert_eq!(first, "JVBERiBjYWNoZWQgY29udGVudA==");
}

#[test]
fn local_storage_path_layout() {
    let storage = LocalStorage::new("./uploads".to_string());
    assert_eq!(storage.pdf_path(&"abc".to_string()), "./uploads/pdfs/abc.pdf");
    assert_eq!(storage.metadata_path(&"abc".to_string()), "./uploads/metadata/abc.json");
}

#[test]
fn storage_faults_describe_themselves() {
    let nf = StorageError::NotFound("abc".to_string());
    assert!(nf.is_not_found());
    assert_eq!(nf.describe(), "File not found: abc");
    let io = StorageError::Io("broken pipe".to_string());
    assert!(!io.is_not_found());
    assert_eq!(io.describe(), "IO error: broken pipe");
    assert_eq!(StorageError::InvalidFormat.describe(), "Invalid file format");
    assert_eq!(StorageError::Other("x".to_string()).describe(), "Storage error: x");
}

#[test]
fn stored_metadata_is_replaced_in_place() {
    let mut blob = MemoryBlobStore::new();
    let id = blob.store_pdf(&"x.pdf".to_string(), b"%PDF".to_vec()).unwrap();
    blob.store_metadata(&id, &b"{\"a\":1}".to_vec()).unwrap();
    blob.store_metadata(&id, &b"{\"a\":2}".to_vec()).unwrap();
    assert_eq!(blob.get_metadata(&id).unwrap(), Some(b"{\"a\":2}".to_vec()));
}
