//! Print-readiness preflight for PDF uploads: the facts, checks and result
//! bookkeeping of the service, with their contracts.

pub mod auth;
pub mod callback;
pub mod config;
pub mod gs;
pub mod laws;
pub mod models;
pub mod pdf;
pub mod pipeline;
pub mod routes;
pub mod text;

