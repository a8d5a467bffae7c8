//! Verified core of an embedder for Font Awesome SVG icons: icon-name and
//! class validation, the family/style vocabulary, SVG post-processing, the
//! cache layout and fetch decisions, the `fa!` argument rules, and the
//! TypeScript module generator.
pub mod api;
pub mod fa_input;
pub mod family;
pub mod fetch;
pub mod postprocess;
pub mod text;
pub mod vendor;
