//! A time-expiring, single-flight cache for repodata documents, together with
//! the decisions of the pipeline that fetches them: which compressed variant
//! to ask for, how a response body becomes a document, and what the cache
//! answers to each of its callers.

pub mod available_packages_cache;
pub mod cache_laws;
pub mod cache_model;
pub mod decode;
pub mod error;
pub mod fetch;
pub mod generic_cache;
pub mod negotiate;
