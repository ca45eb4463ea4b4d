//! The policy that keeps failures up to a limit, and then stops.

use crate::error::{DeserializeError, ErrorKind, FailedNode, Failure};
use crate::pointer::{Step, ValuePointerRef};
use std::ops::ControlFlow;
use vstd::prelude::*;

verus! {

/// The failures of a traversal in the order in which they were met, up to
/// `LIMIT` of them.
#[derive(Clone, Debug, PartialEq, Eq)]
pub struct Capped<const LIMIT: usize> {
    pub failures: Vec<FailedNode>,
}

impl<const LIMIT: usize> DeserializeError for Capped<LIMIT> {
    open spec fn failures(&self) -> Seq<Failure> {
        Seq::new(self.failures@.len(), |i: int| self.failures@[i]@)
    }

    /// The new failures follow those gathered before. While there are
    /// fewer than `LIMIT` the traversal goes on; from then on it ends, with
    /// the first `LIMIT` of them.
    open spec fn merged(previous: Option<Seq<Failure>>, new: Seq<Failure>, location: Seq<Step>)
        -> ControlFlow<Seq<Failure>, Seq<Failure>> {
        let all = match previous {
            Some(before) => before + new,
            None => new,
        };
        if all.len() < LIMIT {
            ControlFlow::Continue(all)
        } else {
            ControlFlow::Break(all.take(LIMIT as int))
        }
    }

    fn error(kind: ErrorKind, location: ValuePointerRef<'_>) -> (e: Self) {
        let mut failures = Vec::new();
        failures.push(FailedNode::new(kind, location));
        let e = Capped { failures };
        e
    }

    fn merge(previous: Option<Self>, new: Self, location: ValuePointerRef<'_>) -> (flow:
        ControlFlow<Self, Self>) {
        let mut all = match previous {
            Some(before) => {
                let mut all = before;
                let mut new = new;
                let ghost added = new.failures();
                all.failures.append(&mut new.failures);
                assert(all.failures() =~= before.failures() + added);
                all
            },
            None => new,
        };
        if all.failures.len() < LIMIT {
            ControlFlow::Continue(all)
        } else {
            let ghost whole = all.failures();
            all.failures.truncate(LIMIT);
            assert(all.failures() =~= whole.take(LIMIT as int));
            ControlFlow::Break(all)
        }
    }
}

} // verus!
