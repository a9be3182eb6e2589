//! Audiobook ingestion library.
//!
//! The crate turns the raw facts read from an audiobook on disk — metadata
//! tags, container tracks and samples, directory listings — into a canonical
//! [`book::Book`] record: name, author, total duration, optional cover-art
//! path, and an ordered chapter structure.  All file and container reading
//! happens outside the crate; callers hand the decoders plain data, and every
//! decoding and aggregation rule in here is verified.

pub mod book;
pub mod container;
pub mod cover;
pub mod decimal;
pub mod error;
pub mod ingest;
pub mod laws;
pub mod pathname;
pub mod records;
pub mod tag;
pub mod timespan;
