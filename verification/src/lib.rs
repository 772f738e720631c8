//! Core of a local research-assistant front-end: a lifecycle state machine
//! that serializes background retrieval and inference work behind a
//! non-blocking control loop, the string-tagged event protocol the workers
//! use to report back, case-insensitive snippet extraction over a document
//! corpus, and the streaming aggregation of reply content into the
//! conversation history.

pub mod event;
pub mod history;
pub mod laws;
pub mod orchestrator;
pub mod retrieval;
pub mod vram;
