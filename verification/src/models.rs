//! Plain request/response shapes of the HTTP surface.
use vstd::prelude::*;

use crate::chat_types::Usage;

verus! {

/// One caller-supplied chat turn: a role (`"user"` or `"assistant"`) and text.
#[derive(Clone)]
pub struct ChatMessage {
    pub role: String,
    pub content: String,
}

/// Body of a chat request: the document and the full turn list.
pub struct ChatApiRequest {
    pub document_id: String,
    pub messages: Vec<ChatMessage>,
}

/// Body of a chat response: the reply text and optional usage counters.
pub struct ChatApiResponse {
    pub response: String,
    pub usage: Option<Usage>,
}

/// Body of a successful upload response.
pub struct UploadResponse {
    pub document_id: String,
}

/// Summary of one backfill batch.
pub struct BackfillResponse {
    pub processed: usize,
    pub succeeded: usize,
    pub failed: usize,
}

/// Query parameters of the document-listing endpoint.
pub struct ListDocumentsQuery {
    pub limit: i32,
}

/// The listing limit used when the caller gives none.
pub fn default_limit() -> (r: i32)
    ensures
        r == 20,
{
    20
}

/// One listed document with its parsed keyword and topic lists.
pub struct DocumentWithMetadata {
    pub id: String,
    pub filename: String,
    pub keywords: Vec<String>,
    pub topics: Vec<String>,
    pub uploaded_at: String,
}

} // verus!
