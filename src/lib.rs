//! Batch document extraction: format dispatch, text extraction, document
//! classification, prompt construction, response recovery, the per-batch
//! state machine, the store, and the tabular exports.
pub mod classify;
pub mod confidence;
pub mod detector;
pub mod export;
pub mod extract;
pub mod json;
pub mod llm;
pub mod model;
pub mod pipeline;
pub mod prompts;
pub mod store;
pub mod text;
