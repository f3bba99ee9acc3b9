//! Core logic of a paste-creation endpoint for a text-sharing service.
//!
//! A client submits text plus optional metadata; the service allocates a
//! random identifier, normalizes the submission into a persistence-ready
//! record, resolves an anonymous owner identity carried in a signed cookie,
//! and answers with a redirect to the new paste's URL.  This crate holds the
//! verified core of that pipeline: form normalization, decimal parsing and
//! formatting, the origin-security heuristic, URL-path derivation, and the
//! planning of the final response.  The surrounding HTTP server, the
//! persistence layer and the cookie jar are collaborators that call into
//! this crate with plain values.

pub mod form;
pub mod id;
pub mod insert;
pub mod num;
pub mod secure;
pub mod text;
