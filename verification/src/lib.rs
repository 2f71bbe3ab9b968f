//! Backend logic of a small desktop shell: model listing, project listings,
//! the markdown export pipeline, source listings and the statements of the
//! local store, each with a machine-checked contract.

pub mod chat;
pub mod export;
pub mod export_job;
pub mod export_run;
pub mod json;
pub mod listing;
pub mod models;
pub mod order;
pub mod sources;
pub mod store;
pub mod text;
