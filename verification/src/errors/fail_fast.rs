//! The policy that stops at the first failure.

use crate::error::{DeserializeError, ErrorKind, FailedNode, Failure};
use crate::pointer::{Step, ValuePointerRef};
use std::ops::ControlFlow;
use vstd::prelude::*;

verus! {

/// The first failure of a traversal, and nothing after it.
#[derive(Clone, Debug, PartialEq, Eq)]
pub struct FailFast {
    pub failure: FailedNode,
}

impl DeserializeError for FailFast {
    open spec fn failures(&self) -> Seq<Failure> {
        seq![self.failure@]
    }

    /// Whatever was gathered is dropped; the new error ends the traversal.
    open spec fn merged(previous: Option<Seq<Failure>>, new: Seq<Failure>, location: Seq<Step>)
        -> ControlFlow<Seq<Failure>, Seq<Failure>> {
        ControlFlow::Break(new)
    }

    fn error(kind: ErrorKind, location: ValuePointerRef<'_>) -> (e: Self) {
        FailFast { failure: FailedNode::new(kind, location) }
    }

    fn merge(previous: Option<Self>, new: Self, location: ValuePointerRef<'_>) -> (flow:
        ControlFlow<Self, Self>) {
        ControlFlow::Break(new)
    }
}

} // verus!
