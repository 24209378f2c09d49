//! Core of a newsletter-subscription service.
//!
//! The library decodes form-encoded submission bodies, validates the
//! submitted name and email, records accepted subscribers, and maps every
//! outcome to an HTTP status, all under per-request correlation metadata.
//! Listener plumbing, configuration loading and the telemetry sink live in
//! the surrounding binary; this crate holds the decisions.

pub mod configuration;
pub mod form;
pub mod handler;
pub mod secret;
pub mod store;
pub mod validation;
