//! Provider-shaped request and response structures for the LLM gateway.
use vstd::prelude::*;

verus! {

/// A provider-side caching hint; `cache_type` is always `"ephemeral"`.
#[derive(Clone)]
pub struct CacheControl {
    pub cache_type: String,
}

/// Source descriptor for an attached document: base64 text of a PDF.
#[derive(Clone)]
pub struct DocumentSource {
    pub source_type: String,
    pub media_type: String,
    pub data: String,
}

/// One content block of a request message: an attached document or plain text.
#[derive(Clone)]
pub enum ContentBlock {
    Document { source: DocumentSource, cache_control: Option<CacheControl> },
    Text { text: String, cache_control: Option<CacheControl> },
}

/// One request message: a role and its content blocks.
#[derive(Clone)]
pub struct Message {
    pub role: String,
    pub content: Vec<ContentBlock>,
}

/// A system instruction block, sent alongside the messages.
#[derive(Clone)]
pub struct SystemBlock {
    pub block_type: String,
    pub text: String,
    pub cache_control: Option<CacheControl>,
}

/// A full chat completion request.
pub struct ChatRequest {
    pub model: String,
    pub max_tokens: u32,
    pub messages: Vec<Message>,
    pub system: Option<Vec<SystemBlock>>,
}

/// One content segment of a chat completion response; only text is defined.
#[derive(Clone)]
pub enum ResponseContent {
    Text { text: String },
}

/// Token usage counters reported with a chat completion response.
#[derive(Clone)]
pub struct Usage {
    pub input_tokens: u32,
    pub output_tokens: u32,
    pub cache_creation_input_tokens: Option<u32>,
    pub cache_read_input_tokens: Option<u32>,
}

/// A chat completion response.
pub struct ChatResponse {
    pub id: String,
    pub content: Vec<ResponseContent>,
    pub usage: Usage,
}

/// The structured result of the metadata-extraction call.
pub struct MetadataExtractionResponse {
    pub keywords: Vec<String>,
    pub topics: Vec<String>,
}

impl ContentBlock {
    /// Whether this block attaches a document.
    pub open spec fn is_document(self) -> bool {
        self is Document
    }
}

impl Message {
    /// Whether any block of this message attaches a document.
    pub open spec fn has_document(self) -> bool {
        exists|i: int| 0 <= i < self.content@.len() && self.content@[i].is_document()
    }
}

} // verus!
