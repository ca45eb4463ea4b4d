//! Failures, and the protocol by which a traversal gathers them.
//!
//! The traversal never looks inside an error. Whenever a child fails it
//! hands the child's error to [`DeserializeError::merge`], and the answer
//! alone decides whether the siblings that follow are still visited.

use crate::pointer::{Step, ValuePointer, ValuePointerRef};
use crate::value::ValueKind;
use std::ops::ControlFlow;
use vstd::prelude::*;

verus! {

/// Why the conversion of one node failed.
#[derive(Clone, Debug, PartialEq, Eq)]
pub enum ErrorKind {
    /// The node has the kind `actual` where `expected` was asked for.
    IncorrectValueKind { expected: ValueKind, actual: ValueKind },
    /// A map lacks a key that the target needs.
    MissingField { field: String },
    /// A map holds a key that the target does not know.
    UnknownKey { key: String },
    /// A number of this kind that the target cannot hold exactly.
    InexactNumber { kind: ValueKind },
}

/// Why the conversion of one node failed, as a mathematical value.
pub enum Cause {
    IncorrectValueKind { expected: ValueKind, actual: ValueKind },
    MissingField { field: Seq<char> },
    UnknownKey { key: Seq<char> },
    InexactNumber { kind: ValueKind },
}

impl View for ErrorKind {
    type V = Cause;

    open spec fn view(&self) -> Cause {
        match self {
            ErrorKind::IncorrectValueKind { expected, actual } => Cause::IncorrectValueKind {
                expected: *expected,
                actual: *actual,
            },
            ErrorKind::MissingField { field } => Cause::MissingField { field: field@ },
            ErrorKind::UnknownKey { key } => Cause::UnknownKey { key: key@ },
            ErrorKind::InexactNumber { kind } => Cause::InexactNumber { kind: *kind },
        }
    }
}

/// One failure: what went wrong, and where.
pub struct Failure {
    pub cause: Cause,
    pub path: Seq<Step>,
}

/// One failure as an error holds it.
#[derive(Clone, Debug, PartialEq, Eq)]
pub struct FailedNode {
    pub kind: ErrorKind,
    pub location: ValuePointer,
}

impl View for FailedNode {
    type V = Failure;

    open spec fn view(&self) -> Failure {
        Failure { cause: self.kind@, path: self.location@ }
    }
}

impl FailedNode {
    /// The failure `kind`, at an owned copy of `location`.
    pub fn new(kind: ErrorKind, location: ValuePointerRef<'_>) -> (node: FailedNode)
        ensures
            node@ == (Failure { cause: kind@, path: location@ }),
    {
        FailedNode { kind, location: location.to_owned() }
    }
}

/// The failures that an accumulated error stands for, or none.
pub open spec fn gathered<E: DeserializeError>(error: Option<E>) -> Option<Seq<Failure>> {
    match error {
        Some(e) => Some(e.failures()),
        None => None,
    }
}

/// An error that can stand for several failures, with the policy that
/// gathers them.
pub trait DeserializeError: Sized {
    /// The failures that this error stands for, in the order in which they
    /// were met.
    spec fn failures(&self) -> Seq<Failure>;

    /// The policy: what becomes of the failures gathered so far when a
    /// child at `location` fails with `new`. `Continue` lets the traversal
    /// go on to the next sibling, `Break` ends it.
    spec fn merged(previous: Option<Seq<Failure>>, new: Seq<Failure>, location: Seq<Step>)
        -> ControlFlow<Seq<Failure>, Seq<Failure>>;

    /// The error for a single failure at `location`.
    fn error(kind: ErrorKind, location: ValuePointerRef<'_>) -> (e: Self)
        ensures
            e.failures() == seq![Failure { cause: kind@, path: location@ }],
    ;

    /// Folds the error of the child at `location` into what was gathered
    /// before it, as the policy says.
    fn merge(previous: Option<Self>, new: Self, location: ValuePointerRef<'_>) -> (flow:
        ControlFlow<Self, Self>)
        ensures
            Self::merged(
                match previous {
                    Some(before) => Some(before.failures()),
                    None => None,
                },
                new.failures(),
                location@,
            ) == match flow {
                ControlFlow::Continue(e) => ControlFlow::<Seq<Failure>, Seq<Failure>>::Continue(
                    e.failures(),
                ),
                ControlFlow::Break(e) => ControlFlow::<Seq<Failure>, Seq<Failure>>::Break(
                    e.failures(),
                ),
            },
    ;
}

/// The error inside an answer, whichever way the answer goes.
pub fn take_cf_content<T>(flow: ControlFlow<T, T>) -> (content: T)
    ensures
        content == match flow {
            ControlFlow::Continue(c) => c,
            ControlFlow::Break(b) => b,
        },
{
    match flow {
        ControlFlow::Continue(c) => c,
        ControlFlow::Break(b) => b,
    }
}

} // verus!
