//! Content-based duplicate detection: a bounded-buffer streaming hasher, a
//! bucketer that groups paths by digest, and the two-pass engine that first
//! prefilters on a partial digest and then confirms on the full content.

pub mod digest;
pub mod hasher;
pub mod bucket;
pub mod error;
pub mod tree;
pub mod model;
pub mod counting;
pub mod grouping;
pub mod report;
pub mod json;
pub mod engine;
pub mod scan;
pub mod laws;
pub mod text;
pub mod progress;
pub mod sink;
pub mod walk;
