//! Enrichment pipeline for visual vocabulary flashcards.
//!
//! The crate turns word/definition flashcards into enriched records by
//! recovering structured data from semi-structured web payloads and
//! ranking candidate text by score, while isolating per-word failures:
//!
//! - [`json`]: a lenient JSON-like value model and parser, for the data
//!   literal an image-search results page embeds in a script block;
//! - [`spider`]: the record extractors — the image-payload walk with its
//!   paged search session, the page-tree model, and the two dictionary
//!   section conventions with the lookup retry policy;
//! - [`rank`]: the ranking rule scored candidates are ordered and cut by;
//! - [`pipeline`]: the stage values, the loading and output-shaping
//!   rules, and the per-word enrichment task machine;
//! - [`text`], [`error`]: character-level utilities and the command-line
//!   error type.
//!
//! Fetching, model inference and rendering stay outside the library;
//! everything here is deterministic logic on plain values.

pub mod error;
pub mod json;
pub mod pipeline;
pub mod rank;
pub mod spider;
pub mod text;
