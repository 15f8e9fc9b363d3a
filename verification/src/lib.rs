//! Metadata for the static files of a chain archive: segment kinds, the ranges
//! a segment file covers, its header, and the file name that encodes both.
//! Beside it, the filter that a table listing applies to raw rows.

pub mod compression;
pub mod db_tool;
pub mod filename;
pub mod header;
pub mod persist;
pub mod search;
pub mod segment;
pub mod text;

pub use compression::Compression;
pub use db_tool::{ListFilter, ListScan, RawRow, ScanState};
pub use filename::UnknownSegment;
pub use header::{HeaderModel, SegmentHeader, SegmentRangeInclusive, Span};
pub use segment::{SegmentConfig, StaticFileSegment};
