//! Conversion of tree-shaped input of any format into typed values, with
//! the place of each failure and a policy for gathering several of them.
//!
//! A format adapter shows its values as [`Value`]s, one level at a time.
//! A target type builds itself from such a value with
//! [`Deserr::deserialize_from_value`]; containers visit their children in
//! order and hand each failure to the error type, whose policy decides
//! whether the traversal goes on.

pub mod deserr;
pub mod error;
pub mod errors;
pub mod float;
pub mod laws;
pub mod pointer;
pub mod value;
pub mod yaml;

pub use crate::deserr::{reject_unknown_keys, take_field, Deserr};
pub use crate::error::{take_cf_content, DeserializeError, ErrorKind, FailedNode};
pub use crate::float::Float;
pub use crate::pointer::{PathStep, ValuePointer, ValuePointerRef};
pub use crate::value::{IntoValue, MapIter, Mapping, Native, Sequence, Value, ValueKind};
pub use crate::yaml::YMapIter;
