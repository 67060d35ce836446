//! Core of a full-text search node: the query language and its compilation
//! against an index schema, search result assembly, writer bookkeeping for a
//! local index, the catalog of indexes, and shard placement.

pub mod catalog;
pub mod codec;
pub mod compile;
pub mod error;
pub mod handle;
pub mod json;
pub mod placement;
pub mod query;
pub mod request;
pub mod results;
pub mod schema;
