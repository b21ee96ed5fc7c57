//! Building of MongoDB read queries.
pub mod arguments;
pub mod builder_laws;
pub mod condition;
pub mod condition_laws;
pub mod document;
pub mod filter;
pub mod filter_laws;
pub mod native;
pub mod native_laws;
pub mod pattern;
pub mod pipeline_laws;
pub mod query;
pub mod query_laws;
pub mod read_query_builder;
mod stages;
