//! Test generation support owned by the library: the template engine.
//! The generator back-ends that fan out over categories live with the
//! caller; they consume the analysis record this library produces.

pub mod templates;

pub use templates::TemplateEngine;
