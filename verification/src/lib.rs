//! A verified parser for the map-editor document format used by Source-engine
//! level tools: a hierarchical, brace-delimited text format of blocks holding
//! quoted key/value pairs and nested blocks.
//!
//! The crate tokenizes a byte buffer, parses the generic block structure, and
//! folds each recognized block kind into a strongly typed record. Keys inside
//! a block may come in any order; the last occurrence of a key wins; omitted
//! keys take declared defaults; unknown top-level blocks are skipped.
//!
//! Numeric values that the format treats as real numbers are kept as their
//! validated literal text, preserving the exact formatting of the source.
pub mod block;
pub mod bytes;
pub mod error;
pub mod kv;
pub mod laws;
pub mod lexer;
pub mod num;
pub mod types;
pub mod vmf;
