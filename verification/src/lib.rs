//! A recursive binary signature scanning and extraction engine.
//!
//! The engine holds a table of magic-byte signatures, scans untrusted byte
//! buffers for matches at every offset, filters the candidates by name and by
//! confidence, dispatches built-in extractors over the matched byte ranges,
//! and re-scans extracted output up to a configured recursion depth.

pub mod api;
pub mod engine;
pub mod extract;
pub mod matcher;
pub mod order;
pub mod table;
pub mod types;

pub use crate::engine::Binwalk;
pub use crate::types::{AnalysisResults, EngineError, ExtractionResult, Extractor, ExtractorType,
    SignatureInfo, SignatureResult};
