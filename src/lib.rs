//! A privacy-enforcing pipeline for analytics events: PII scanning, key-based
//! JSON redaction, annotation, field-length validation, route classification
//! and an ingress attribution cache.

pub mod text;
pub mod route;
pub mod privacy;
pub mod json;
pub mod regexes;
pub mod redactor;
pub mod validate;
pub mod cache;
pub mod annotate;
pub mod redact;
pub mod errors;
pub mod k8s;
pub mod proxy;
