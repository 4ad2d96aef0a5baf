//! Core data model for approval requests that gate privileged actions.
//!
//! An approval request records who wants to run what, why, and how dangerous
//! it is; it starts out pending and is resolved exactly once, by a human
//! decision or by a timeout.  This crate defines the request value, its
//! lifecycle rules, its one-line display forms, and a self-describing text
//! serialization that round-trips every field.

pub mod approval;
pub mod codec;
pub mod text;
