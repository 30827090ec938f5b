//! Resolution of ECMAScript module specifiers to absolute paths, following
//! the conventions that JavaScript and TypeScript tooling share.
//!
//! The library never touches the disk. A resolution reads the answers that
//! were recorded in a [`FileFacts`], and returns either its result or the
//! question whose answer it lacks; the caller answers the question and
//! resolves again.

pub mod data;
pub mod es_resolver;
pub mod exports;
pub mod facts;
pub mod json;
pub mod knowledge;
pub mod manifest;
pub mod ordered;
pub mod paths;
pub mod resolution;
pub mod text;
pub mod tsconfig;
pub mod tspaths;
pub mod types;
pub mod utils;

pub use es_resolver::EsResolver;
pub use facts::{FileFacts, Query};
pub use types::{EsResolveOptions, EsResolverError, TargetEnv};
