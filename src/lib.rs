//! A query planner for a schema-driven data-access engine.
//!
//! Requests arrive as JSON-shaped query trees rooted at a model; the planner
//! turns them into an ordered sequence of document-store aggregation stages.

pub mod util;
pub mod json;
pub mod text;
pub mod outside;
pub mod bson;
pub mod error;
pub mod action_error;
pub mod schema;
pub mod value;
pub mod predicate;
pub mod filter;
pub mod query;
pub mod pipeline;
pub mod model_builder;
pub mod input_decoder;
pub mod laws;
pub mod sql;
