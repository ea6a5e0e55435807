//! Document extraction: format-specific parsers that turn tabular text and
//! paginated documents into one structured, type-inferred value.

pub mod batch;
pub mod error;
pub mod infer;
pub mod paginated;
pub mod parsed;
pub mod parser;
pub mod source;
pub mod tabular;
pub mod text;
pub mod value;
