//! Decisions behind indexing a source tree into a code and document knowledge base.

pub mod call_laws;
pub mod classify;
pub mod content_laws;
pub mod documents;
pub mod file_laws;
pub mod generated;
pub mod generated_laws;
pub mod ingest;
pub mod notebook;
pub mod paths;
pub mod path_laws;
pub mod plan_laws;
pub mod run_laws;
pub mod run_options;
pub mod run_order;
pub mod settings;
pub mod store;
pub mod summary;
pub mod tables;
pub mod text;
pub mod text_laws;
pub mod walk;
pub mod walk_laws;
