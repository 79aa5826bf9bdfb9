//! Typed GraphQL query construction: canonical (sorted, duplicate-free) field selection,
//! complexity and depth budgeting, declarative argument validation, and compilation into
//! inline or parameterized documents, single or combined into composite documents and batches.

pub mod text;
pub mod i18n;
pub mod error;
pub mod validation;
pub mod payload;
pub mod traits;
pub mod selector;
pub mod query;
pub mod metrics;
pub mod composite;
pub mod batch;
pub mod prelude;
