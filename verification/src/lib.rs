//! A heuristic per-file code-complexity analyzer that assembles its results
//! into a hierarchical (treemap) node set.
//!
//! The pipeline classifies files by extension, estimates an integer
//! complexity score per file by scanning its lines for language-specific
//! markers, converts each analyzed file path into a tree node, lazily
//! materializes ancestor-directory nodes deduplicated by label, and finally
//! validates and aggregates the parallel result arrays.

pub mod strutil;
pub mod lang;
pub mod estimator;
pub mod paths;
pub mod parser;
pub mod hierarchy;
pub mod aggregate;
pub mod pipeline;
pub mod http;
