//! Ready-made error types, one for each common policy.

pub mod capped;
pub mod collect_all;
pub mod fail_fast;

pub use capped::Capped;
pub use collect_all::CollectAll;
pub use fail_fast::FailFast;
