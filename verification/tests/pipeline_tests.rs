use pdf_chat::cache::MaterializationCache;
use pdf_chat::chat::{complete_chat_turn, prepare_chat_turn};
use pdf_chat::chat_types::{ChatResponse, ContentBlock, ResponseContent, Usage};
use pdf_chat::error::ApiError;
use pdf_chat::gateway::{ClaudeClient, EXTRACTION_PROMPT, SYSTEM_PROMPT};
use pdf_chat::models::ChatMessage;
use pdf_chat::storage::MemoryBlobStore;
use pdf_chat::store::ConversationStore;

fn stub_usage() -> Usage {
    Usage {
        input_tokens: 17,
        output_tokens: 5,
        cache_creation_input_tokens: None,
        cache_read_input_tokens: Some(3),
    }
}

fn stub_response(text: &str) -> ChatResponse {
    ChatResponse {
        id: "resp-1".to_string(),
        content: vec![ResponseContent::Text { text: text.to_string() }],
        usage: stub_usage(),
    }
}

fn user_turn(text: &str) -> ChatMessage {
    ChatMessage { role: "user".to_string(), content: text.to_string() }
}

#[test]
fn chat_for_unknown_document_is_not_found_before_any_gateway_call() {
    let mut store = ConversationStore::new();
    let mut cache = MaterializationCache::new(100, 3600);
    let blob = MemoryBlobStore::new();
    let client = ClaudeClient::new("test-api-key".to_string(), "test-model".to_string());
    let turns = vec![user_turn("What is this about?")];
    let r = prepare_chat_turn(
        &mut store,
        &mut cache,
        &blob,
        &client,
        &"never-uploaded".to_string(),
        &turns,
    );
    match r {
        Err(ApiError::NotFound(_)) => (),
        _ => panic!("expected a not-found failure and no request to send"),
    }
}

#[test]
fn end_to_end_upload_then_chat() {
    let mut store = ConversationStore::new();
    let mut cache = MaterializationCache::new(100, 3600);
    let mut blob = MemoryBlobStore::new();
    let client = ClaudeClient::new("test-api-key".to_string(), "test-model".to_string());

    let bytes = b"%PDF-1.4 contains 1234".to_vec();
    let doc_id = blob.store_pdf(&"paper.pdf".to_string(), bytes).unwrap();
    store.create_document(&doc_id, &"paper.pdf".to_string()).unwrap();

    let turns = vec![user_turn("What is this about?")];
    let (conv_id, req) = prepare_chat_turn(&mut store, &mut cache, &blob, &client, &doc_id, &turns)
        .unwrap();

    assert_eq!(req.model, "test-model");
    assert_eq!(req.max_tokens, 4096);
    assert_eq!(req.messages.len(), 1);
    match &req.messages[0].content[0] {
        ContentBlock::Document { source, cache_control } => {
            assert_eq!(source.source_type, "base64");
            assert_eq!(source.media_type, "application/pdf");
            assert!(!source.data.is_empty());
            assert!(cache_control.is_some());
        },
        _ => panic!("the first turn must attach the document"),
    }
    let system = req.system.as_ref().unwrap();
    assert_eq!(system.len(), 1);
    assert_eq!(system[0].text, SYSTEM_PROMPT);

    let body = complete_chat_turn(
        &mut store,
        &conv_id,
        &turns,
        stub_response("It is about 1234 (page 1)"),
        &"m-user".to_string(),
        &"m-assistant".to_string(),
        &"t1".to_string(),
    )
    .unwrap();
    assert!(!body.response.is_empty());
    assert!(body.usage.unwrap().input_tokens > 0);

    let history = store.get_conversation_messages(&doc_id);
    assert_eq!(history.len(), 2);
    assert_eq!(history[0].role, "user");
    assert_eq!(history[1].role, "assistant");
    assert_eq!(history[1].content, "It is about 1234 (page 1)");
}

#[test]
fn n_turns_give_alternating_history_of_double_length() {
    let mut store = ConversationStore::new();
    let mut cache = MaterializationCache::new(100, 3600);
    let mut blob = MemoryBlobStore::new();
    let client = ClaudeClient::new("test-api-key".to_string(), "test-model".to_string());
    let doc_id = blob.store_pdf(&"p.pdf".to_string(), b"%PDF data".to_vec()).unwrap();

    let n = 3;
    for t in 0..n {
        let turns = vec![user_turn(&format!("question {}", t))];
        let (conv_id, _req) =
            prepare_chat_turn(&mut store, &mut cache, &blob, &client, &doc_id, &turns).unwrap();
        complete_chat_turn(
            &mut store,
            &conv_id,
            &turns,
            stub_response(&format!("answer {}", t)),
            &format!("mu-{}", t),
            &format!("ma-{}", t),
            &format!("t{}", t),
        )
        .unwrap();
    }
    let history = store.get_conversation_messages(&doc_id);
    assert_eq!(history.len(), 2 * n);
    for (i, m) in history.iter().enumerate() {
        if i % 2 == 0 {
            assert_eq!(m.role, "user");
            assert_eq!(m.content, format!("question {}", i / 2));
        } else {
            assert_eq!(m.role, "assistant");
            assert_eq!(m.content, format!("answer {}", i / 2));
        }
    }
}

#[test]
fn assistant_last_turn_appends_only_the_reply() {
    let mut store = ConversationStore::new();
    let mut cache = MaterializationCache::new(100, 3600);
    let mut blob = MemoryBlobStore::new();
    let client = ClaudeClient::new("test-api-key".to_string(), "test-model".to_string());
    let doc_id = blob.store_pdf(&"p.pdf".to_string(), b"%PDF data".to_vec()).unwrap();

    let turns = vec![ChatMessage { role: "assistant".to_string(), content: "earlier".to_string() }];
    let (conv_id, req) =
        prepare_chat_turn(&mut store, &mut cache, &blob, &client, &doc_id, &turns).unwrap();
    for m in &req.messages {
        for b in &m.content {
            assert!(matches!(b, ContentBlock::Text { .. }));
        }
    }
    complete_chat_turn(
        &mut store,
        &conv_id,
        &turns,
        stub_response("reply"),
        &"mu".to_string(),
        &"ma".to_string(),
        &"t1".to_string(),
    )
    .unwrap();
    let history = store.get_conversation_messages(&doc_id);
    assert_eq!(history.len(), 1);
    assert_eq!(history[0].role, "assistant");
}

#[test]
fn extraction_request_uses_fixed_prompt_without_caching() {
    let client = ClaudeClient::new("test-api-key".to_string(), "test-model".to_string());
    let req = pdf_chat::gateway::build_extraction_request(&client, "AAAA".to_string());
    assert_eq!(req.max_tokens, 1024);
    assert!(req.system.is_none());
    assert_eq!(req.messages.len(), 1);
    match &req.messages[0].content[1] {
        ContentBlock::Text { text, cache_control } => {
            assert_eq!(text, EXTRACTION_PROMPT);
            assert!(cache_control.is_none());
        },
        _ => panic!("the prompt text block is missing"),
    }
    match &req.messages[0].content[0] {
        ContentBlock::Document { cache_control, .. } => assert!(cache_control.is_none()),
        _ => panic!("the document block is missing"),
    }
}

#[test]
fn reply_text_joins_segments_with_newlines() {
    let content = vec![
        ResponseContent::Text { text: "first".to_string() },
        ResponseContent::Text { text: "second".to_string() },
    ];
    assert_eq!(pdf_chat::gateway::extract_reply_text(&content), "first\nsecond");
    let empty: Vec<ResponseContent> = vec![];
    assert_eq!(pdf_chat::gateway::extract_reply_text(&empty), "");
}

#[test]
fn fenced_extraction_reply_parses() {
    let fenced =
        "```json\n{\"keywords\": [\"graph\", \"flow\"], \"topics\": [\"networks\"]}\n```".to_string();
    let m = pdf_chat::gateway::parse_metadata_response(&fenced).unwrap();
    assert_eq!(m.keywords, vec!["graph".to_string(), "flow".to_string()]);
    assert_eq!(m.topics, vec!["networks".to_string()]);

    let bare = "{\"keywords\": [], \"topics\": []}".to_string();
    assert!(pdf_chat::gateway::parse_metadata_response(&bare).is_ok());

    let garbage = "I could not produce JSON".to_string();
    match pdf_chat::gateway::parse_metadata_response(&garbage) {
        Err(ApiError::ExternalApiError(msg)) => assert!(msg.contains("I could not produce JSON")),
        _ => panic!("a malformed reply must be an upstream decode failure"),
    }
}

#[test]
fn empty_turn_list_renders_no_messages_and_no_document_block() {
    let client = ClaudeClient::new("test-api-key".to_string(), "test-model".to_string());
    let turns: Vec<ChatMessage> = vec![];
    let req = pdf_chat::gateway::build_chat_request(&client, &"AAAA".to_string(), &turns);
    assert!(req.messages.is_empty());
}

#[test]
fn later_turns_are_text_only() {
    let client = ClaudeClient::new("test-api-key".to_string(), "test-model".to_string());
    let turns = vec![
        user_turn("first"),
        ChatMessage { role: "assistant".to_string(), content: "reply".to_string() },
        user_turn("second"),
    ];
    let req = pdf_chat::gateway::build_chat_request(&client, &"AAAA".to_string(), &turns);
    assert_eq!(req.messages.len(), 3);
    assert!(matches!(req.messages[0].content[0], ContentBlock::Document { .. }));
    for m in &req.messages[1..] {
        for b in &m.content {
            assert!(matches!(b, ContentBlock::Text { .. }));
        }
    }
}

#[test]
fn duplicate_message_id_fails_the_turn_and_keeps_at_most_the_user_row() {
    let mut store = ConversationStore::new();
    let conv_id = store
        .get_or_create_conversation_at(&"doc-1".to_string(), &"conv-1".to_string(), &"t0".to_string())
        .unwrap();
    let turns = vec![user_turn("hello")];
    // First turn succeeds and takes both message ids.
    complete_chat_turn(
        &mut store,
        &conv_id,
        &turns,
        stub_response("hi"),
        &"mu".to_string(),
        &"ma".to_string(),
        &"t1".to_string(),
    )
    .unwrap();
    // Reusing the user id fails before anything is appended.
    let r = complete_chat_turn(
        &mut store,
        &conv_id,
        &turns,
        stub_response("again"),
        &"mu".to_string(),
        &"ma-2".to_string(),
        &"t2".to_string(),
    );
    assert!(matches!(r, Err(ApiError::DatabaseError(_))));
    assert_eq!(store.get_conversation_messages(&"doc-1".to_string()).len(), 2);
    // Reusing the assistant id fails after at most the user row.
    let r2 = complete_chat_turn(
        &mut store,
        &conv_id,
        &turns,
        stub_response("again"),
        &"mu-2".to_string(),
        &"ma".to_string(),
        &"t3".to_string(),
    );
    assert!(matches!(r2, Err(ApiError::DatabaseError(_))));
    let history = store.get_conversation_messages(&"doc-1".to_string());
    assert_eq!(history.len(), 3);
    assert_eq!(history[2].role, "user");
}
