//! The policy that visits every node and keeps every failure.

use crate::error::{DeserializeError, ErrorKind, FailedNode, Failure};
use crate::pointer::{Step, ValuePointerRef};
use std::ops::ControlFlow;
use vstd::prelude::*;

verus! {

/// Every failure of a traversal, in the order in which they were met.
#[derive(Clone, Debug, PartialEq, Eq)]
pub struct CollectAll {
    pub failures: Vec<FailedNode>,
}

impl DeserializeError for CollectAll {
    open spec fn failures(&self) -> Seq<Failure> {
        Seq::new(self.failures@.len(), |i: int| self.failures@[i]@)
    }

    /// The new failures follow those gathered before; the traversal goes on.
    open spec fn merged(previous: Option<Seq<Failure>>, new: Seq<Failure>, location: Seq<Step>)
        -> ControlFlow<Seq<Failure>, Seq<Failure>> {
        match previous {
            Some(before) => ControlFlow::Continue(before + new),
            None => ControlFlow::Continue(new),
        }
    }

    fn error(kind: ErrorKind, location: ValuePointerRef<'_>) -> (e: Self) {
        let mut failures = Vec::new();
        failures.push(FailedNode::new(kind, location));
        let e = CollectAll { failures };
        e
    }

    fn merge(previous: Option<Self>, new: Self, location: ValuePointerRef<'_>) -> (flow:
        ControlFlow<Self, Self>) {
        match previous {
            Some(before) => {
                let mut all = before;
                let mut new = new;
                let ghost added = new.failures();
                all.failures.append(&mut new.failures);
                assert(all.failures() =~= before.failures() + added);
                ControlFlow::Continue(all)
            },
            None => ControlFlow::Continue(new),
        }
    }
}

} // verus!
