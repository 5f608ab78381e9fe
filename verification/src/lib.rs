//! Content-addressed media repository: identity types and their codecs, the
//! relation model between hashes, aliases, identifiers, variants and details,
//! blob-store path rules, the single-flight derivation registry and the
//! rules around external converters.

pub mod alias;
pub mod bytes;
pub mod details;
pub mod error;
pub mod hasher;
pub mod ident;
pub mod limit;
pub mod magick;
pub mod process;
pub mod processor;
pub mod repo;
pub mod scan;
pub mod store;
pub mod text;
pub mod upload_manager;
pub mod variant;
