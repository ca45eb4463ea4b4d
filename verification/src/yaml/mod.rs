//! The adapter for YAML documents held as `serde_yml::Value`.
//!
//! A `serde_yml::Value` is a node of a document: [`IntoValue`] classifies
//! and opens it. It is also a target: it can be built from the document of
//! any format, with a check for exactness ([`Deserr`]) or without one
//! (`From`).
//!
//! [`IntoValue`]: crate::value::IntoValue
//! [`Deserr`]: crate::deserr::Deserr

pub mod adapter;
pub mod convert;
pub mod laws;
pub mod model;
pub mod outside;

pub use adapter::YMapIter;
pub use model::Yaml;
