use pdf_chat::documents::{apply_extracted_metadata, list_documents_with_metadata};
use pdf_chat::models::default_limit;
use pdf_chat::store::ConversationStore;

#[test]
fn default_listing_limit_is_twenty() {
    assert_eq!(default_limit(), 20);
}

#[test]
fn get_or_create_is_idempotent() {
    let mut store = ConversationStore::new();
    let doc = "doc-1".to_string();
    let first = store
        .get_or_create_conversation_at(&doc, &"conv-1".to_string(), &"t1".to_string())
        .unwrap();
    let second = store
        .get_or_create_conversation_at(&doc, &"conv-2".to_string(), &"t2".to_string())
        .unwrap();
    assert_eq!(first, "conv-1");
    assert_eq!(second, "conv-1");
    assert_eq!(store.list_conversations(&doc).len(), 1);
}

#[test]
fn get_or_create_synthesizes_missing_document() {
    let mut store = ConversationStore::new();
    let doc = "legacy-doc".to_string();
    store
        .get_or_create_conversation_at(&doc, &"conv-1".to_string(), &"t1".to_string())
        .unwrap();
    let row = store.get_document(&doc).unwrap();
    assert_eq!(row.filename, "unknown.pdf");
    assert_eq!(row.keywords, None);
    assert_eq!(row.topics, None);
}

#[test]
fn get_or_create_picks_most_recent_conversation() {
    let mut store = ConversationStore::new();
    let doc = "doc-1".to_string();
    store.create_document_at(&doc, &"a.pdf".to_string(), &"t0".to_string()).unwrap();
    store
        .create_conversation_at(&doc, None, &"conv-old".to_string(), &"t1".to_string())
        .unwrap();
    store
        .create_conversation_at(&doc, None, &"conv-new".to_string(), &"t2".to_string())
        .unwrap();
    let picked = store
        .get_or_create_conversation_at(&doc, &"conv-x".to_string(), &"t3".to_string())
        .unwrap();
    assert_eq!(picked, "conv-new");
}

#[test]
fn history_keeps_creation_order() {
    let mut store = ConversationStore::new();
    let doc = "doc-1".to_string();
    let conv = store
        .get_or_create_conversation_at(&doc, &"conv-1".to_string(), &"t0".to_string())
        .unwrap();
    store
        .save_message_at(&conv, &"user".to_string(), &"q1".to_string(), &"m1".to_string(), &"t1".to_string())
        .unwrap();
    store
        .save_message_at(&conv, &"assistant".to_string(), &"a1".to_string(), &"m2".to_string(), &"t2".to_string())
        .unwrap();
    let history = store.get_conversation_messages(&doc);
    assert_eq!(history.len(), 2);
    assert_eq!(history[0].role, "user");
    assert_eq!(history[0].content, "q1");
    assert_eq!(history[1].role, "assistant");
    assert_eq!(history[1].content, "a1");
    let by_id = store.get_conversation_messages_by_id(&conv);
    assert_eq!(by_id.len(), 2);
}

#[test]
fn duplicate_message_id_is_rejected_without_change() {
    let mut store = ConversationStore::new();
    let doc = "doc-1".to_string();
    let conv = store
        .get_or_create_conversation_at(&doc, &"conv-1".to_string(), &"t0".to_string())
        .unwrap();
    store
        .save_message_at(&conv, &"user".to_string(), &"q".to_string(), &"m1".to_string(), &"t1".to_string())
        .unwrap();
    let err = store.save_message_at(
        &conv,
        &"assistant".to_string(),
        &"a".to_string(),
        &"m1".to_string(),
        &"t2".to_string(),
    );
    assert!(err.is_err());
    assert_eq!(store.get_conversation_messages(&doc).len(), 1);
}

#[test]
fn listing_orders_most_recent_first_and_honors_limit() {
    let mut store = ConversationStore::new();
    for k in 0..5 {
        let id = format!("doc-{}", k);
        let name = format!("file-{}.pdf", k);
        let t = format!("t{}", k);
        store.create_document_at(&id, &name, &t).unwrap();
    }
    let recent = store.list_recent_documents(3);
    assert_eq!(recent.len(), 3);
    assert_eq!(recent[0].id, "doc-4");
    assert_eq!(recent[1].id, "doc-3");
    assert_eq!(recent[2].id, "doc-2");
    let all = store.list_recent_documents(-1);
    assert_eq!(all.len(), 5);
}

#[test]
fn metadata_round_trips_through_listing() {
    let mut store = ConversationStore::new();
    let doc = "doc-1".to_string();
    store.create_document_at(&doc, &"a.pdf".to_string(), &"t0".to_string()).unwrap();
    store.create_document_at(&"doc-2".to_string(), &"b.pdf".to_string(), &"t1".to_string()).unwrap();

    let keywords: Vec<String> = vec!["a".to_string(), "b".to_string()];
    let topics: Vec<String> = vec!["x".to_string()];
    apply_extracted_metadata(&mut store, &doc, &keywords, &topics).unwrap();

    let listed = list_documents_with_metadata(&store, 10);
    assert_eq!(listed.len(), 2);
    let enriched = listed.iter().find(|d| d.id == "doc-1").unwrap();
    assert_eq!(enriched.keywords, keywords);
    assert_eq!(enriched.topics, topics);
    let bare = listed.iter().find(|d| d.id == "doc-2").unwrap();
    assert!(bare.keywords.is_empty());
    assert!(bare.topics.is_empty());
}

#[test]
fn delete_conversation_removes_its_messages() {
    let mut store = ConversationStore::new();
    let doc = "doc-1".to_string();
    let conv = store
        .get_or_create_conversation_at(&doc, &"conv-1".to_string(), &"t0".to_string())
        .unwrap();
    store
        .save_message_at(&conv, &"user".to_string(), &"q".to_string(), &"m1".to_string(), &"t1".to_string())
        .unwrap();
    store.delete_conversation(&conv).unwrap();
    assert!(store.get_conversation(&conv).is_none());
    assert_eq!(store.get_conversation_messages(&doc).len(), 0);
}

#[test]
fn title_update_keeps_other_fields() {
    let mut store = ConversationStore::new();
    let doc = "doc-1".to_string();
    let conv = store
        .get_or_create_conversation_at(&doc, &"conv-1".to_string(), &"t0".to_string())
        .unwrap();
    store
        .update_conversation_title_at(&conv, &"My chat".to_string(), &"t1".to_string())
        .unwrap();
    let row = store.get_conversation(&conv).unwrap();
    assert_eq!(row.title, Some("My chat".to_string()));
    assert_eq!(row.document_id, doc);
}

#[test]
fn drawn_id_variants_work_end_to_end() {
    let mut store = ConversationStore::new();
    let doc = "doc-1".to_string();
    store.create_document(&doc, &"a.pdf".to_string()).unwrap();
    let conv = store.get_or_create_conversation(&doc).unwrap();
    let again = store.get_or_create_conversation(&doc).unwrap();
    assert_eq!(conv, again);
    store.save_message(&conv, &"user".to_string(), &"hello".to_string()).unwrap();
    assert_eq!(store.get_conversation_messages(&doc).len(), 1);
    let made = store.create_conversation(&doc, Some("side".to_string())).unwrap();
    assert!(store.get_conversation(&made).is_some());
}

#[test]
fn drawn_time_title_update_sets_the_title() {
    let mut store = ConversationStore::new();
    let conv = store
        .get_or_create_conversation_at(&"doc-1".to_string(), &"conv-1".to_string(), &"t0".to_string())
        .unwrap();
    store.update_conversation_title(&conv, &"Renamed".to_string()).unwrap();
    let row = store.get_conversation(&conv).unwrap();
    assert_eq!(row.title, Some("Renamed".to_string()));
}

#[test]
fn conversations_list_most_recently_updated_first() {
    let mut store = ConversationStore::new();
    let doc = "doc-1".to_string();
    store.create_document_at(&doc, &"a.pdf".to_string(), &"t0".to_string()).unwrap();
    store.create_conversation_at(&doc, None, &"conv-a".to_string(), &"t1".to_string()).unwrap();
    store.create_conversation_at(&doc, None, &"conv-b".to_string(), &"t2".to_string()).unwrap();
    let listed = store.list_conversations(&doc);
    assert_eq!(listed[0].id, "conv-b");
    assert_eq!(listed[1].id, "conv-a");
    // Touching the older conversation moves it to the front.
    store
        .update_conversation_title_at(&"conv-a".to_string(), &"bumped".to_string(), &"t3".to_string())
        .unwrap();
    let relisted = store.list_conversations(&doc);
    assert_eq!(relisted[0].id, "conv-a");
    assert_eq!(relisted[1].id, "conv-b");
}
