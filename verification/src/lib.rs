//! Gateway core for retrieving a book file from unreliable upstream mirrors,
//! normalizing it into a requested output format, and deriving safe filenames.
//!
//! The verified library holds the pipeline's rules: URL shaping and response
//! classification for one mirror fetch, the archive codec that unwraps and
//! re-wraps zip containers, the orchestrator's attempt planning and
//! first-winner selection, and the filename normalizer. The surrounding
//! binary performs the HTTP and disk I/O and drives these rules.

pub mod archive;
pub mod book;
pub mod config;
pub mod fetch;
pub mod filename;
pub mod orchestrate;
pub mod text;
