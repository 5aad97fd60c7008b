//! A verified core for a streaming multipart upload service.
//!
//! The library holds the logic of the upload path: deriving a safe on-disk
//! filename from untrusted client input (`filename`), and the per-request
//! state machine that demultiplexes multipart fields, orders the writes of
//! each field's chunks, and shapes the response (`pipeline`). The HTTP
//! server, the multipart reader and the blocking filesystem calls live
//! outside the library and drive the state machine through its events.

pub mod filename;
pub mod pipeline;
