//! Index-driven page navigation for paginated documents: a literal rewrite
//! engine for search phrases, a floor lookup over a sorted text index, and the
//! per-document navigation and render-cache state machine.

pub mod bytes;
pub mod collection;
pub mod document;
pub mod index;
pub mod parse;
pub mod rewrite;

pub use bytes::bytes_le;
pub use index::{Index, IndexEntry};
pub use rewrite::{apply_rewrites, replace_bytes};
pub use document::{
    config_or_default, Config, Document, RenderRequest, Rendered, SearchOutcome, DEFAULT_RESOLUTION,
};
pub use collection::Collection;
pub use parse::{parse_index_line, IndexError};
