//! Parser for the classic, indentation-based Yarn lockfile format.
//!
//! The lockfile text is an irregular, whitespace-sensitive key/value tree.
//! The parser is a recursive-descent grammar over characters: literals
//! (quoted or raw strings), layout (comments, blank runs, two-space
//! indentation) and structure (nested maps, multi-key entries) combine into
//! a generic [`structure::Value`] tree, from which the package descriptors
//! are extracted and deduplicated.  Every production is verified against a
//! specification-level model of the grammar, so parsing is a pure function
//! of the input text.

pub mod api;
pub mod decimal;
pub mod error;
pub mod extension;
pub mod layout;
pub mod literal;
pub mod package;
pub mod plugin;
pub mod position;
pub mod structure;
pub mod yarn;

pub use error::ParseError;
pub use package::{PackageDescriptor, PackageType};
pub use yarn::parse;
