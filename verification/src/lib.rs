//! Document-management backend core: projects (work orders), an inbox of
//! unassigned documents, email-attachment ingestion with routing rules and
//! filters, a per-project discussion forum, and push-subscription bookkeeping.
//!
//! All state lives in an in-memory [`model::Store`]; every operation on it
//! is verified. File and network transport stay outside this crate.

pub mod auth;
pub mod clock;
pub mod document;
pub mod dto;
pub mod email;
pub mod error;
pub mod forum;
pub mod ids;
pub mod init;
pub mod laws;
pub mod model;
pub mod project;
pub mod push;
pub mod text;
pub mod user;
