//! Backend-agnostic query-execution core for a SQL client toolkit:
//! positional parameter encoding, a consuming query builder, an executor
//! capability with a mathematical connection model, row decoding, and an
//! extended-query pipeline with ordered, independently-fallible outcomes.

pub mod encode;
pub mod error;
pub mod executor;
pub mod params;
pub mod pipeline;
pub mod query;
pub mod row;
pub mod value;

pub use error::Error;
