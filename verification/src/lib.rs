//! Document-to-pixel preparation for optical character recognition:
//! an image preprocessing pipeline, a raster extractor for PDF documents
//! and a heuristic confidence scorer for recognised text.

pub mod buffer;
pub mod confidence;
pub mod config;
pub mod engine;
pub mod error;
pub mod pdf;
pub mod preprocessing;
pub mod server;
pub mod text;
