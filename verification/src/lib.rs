//! A document-scoped chat pipeline: PDF uploads, a conversation per document,
//! provider-shaped chat requests with first-turn document attachment, a
//! materialization cache for base64 PDF text, and retryable metadata backfill.
//!
//! The persistence model, the request shaping, the retry policy and the
//! stored-metadata codec are verified; network and file transport live
//! outside the library and hand it plain values.

pub mod chat;
pub mod chat_types;
pub mod codec;
pub mod backfill;
pub mod cache;
pub mod documents;
pub mod error;
pub mod gateway;
pub mod text;
pub mod host;
pub mod models;
pub mod storage;
pub mod store;
