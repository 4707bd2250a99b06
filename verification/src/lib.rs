//! Snapshots of compacted conversations.
//!
//! A coding assistant compacts a conversation when its context is nearly full. This library
//! watches the requests of a session, detects where a conversation was compacted, keeps a
//! bounded number of snapshots of what was left, and scores how far each has drifted from the
//! objective. In the safe capture mode a snapshot shows redacted and shortened text only.
//!
//! - `store` is the entry: it records requests and summaries. `store_model` is its model, and
//!   `store_laws` says what holds over several operations.
//! - `candidate` reads a request, `detection` looks for signs of a compaction, and `record`
//!   makes the snapshot.
//! - `redact`, `patterns` and `excerpt` prepare text that may be shown.
//! - `keywords`, `facts` and `drift` score the drift; `analyzer` has it scored by a program.
//! - `laws` says what holds of excerpts, detections, scores and answers, whatever the input.
//!   `text_laws`, `request_laws`, `detection_laws`, `record_laws` and `drift_laws` tell what each
//!   part does by its inputs and results, and `call_laws` ties the calls to that.
//!
//! The name of the assistant is given by the caller. Times are nanoseconds of the caller's
//! clock.

pub mod chars;
pub mod text;
pub mod numeral;
pub mod text_map;

pub mod patterns;
pub mod redact;
pub mod excerpt;
pub mod hash;
pub mod json;

pub mod capture;
pub mod snapshot;
pub mod candidate;
pub mod detection;
pub mod record;

pub mod keywords;
pub mod facts;
pub mod drift_score;
pub mod drift;
pub mod analyzer;

pub mod store_model;
pub mod store;

pub mod laws;
pub mod text_laws;
pub mod request_laws;
pub mod detection_laws;
pub mod record_laws;
pub mod drift_laws;
pub mod store_laws;
pub mod call_laws;
