//! Materialises large-file pointer stubs: recognises pointer files, decides
//! which directory entries are worth reading, resolves object URLs and
//! schedules the bounded-concurrency fetch of the referenced payloads.

pub mod batch;
pub mod config;
pub mod endpoint;
pub mod lines;
pub mod number;
pub mod pointer;
pub mod scan;
pub mod text;
