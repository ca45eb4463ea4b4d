//! The conversion entry point, and the traversal that containers share.

use crate::error::{gathered, Cause, DeserializeError, ErrorKind, Failure};
use crate::pointer::{Step, ValuePointerRef};
use crate::value::{
    has_key, item_trees, IntoValue, MapIter, Mapping, Native, Sequence, Tree, Value, ValueKind,
};
use std::ops::ControlFlow;
use vstd::prelude::*;

verus! {

/// A type that can be built from a document.
///
/// What a conversion comes to depends on the document and on the place
/// where it was found, and on nothing else: `outcome` says so, over trees
/// and lists of failures.
pub trait Deserr<E: DeserializeError>: Sized {
    /// The document that this value was built from, as far as the value
    /// keeps it.
    spec fn shape(&self) -> Tree;

    /// What the conversion of `tree`, found at `path`, comes to: the shape
    /// of the value built, or the failures that the error stands for.
    spec fn outcome(tree: Tree, path: Seq<Step>) -> Result<Tree, Seq<Failure>>;

    /// Builds a value from the node `value`, which stands at `location`.
    fn deserialize_from_value<V: IntoValue>(value: Value<V>, location: ValuePointerRef<'_>) -> (r:
        Result<Self, E>)
        ensures
            Self::outcome(value.tree(), location@) == match r {
                Ok(built) => Ok::<Tree, Seq<Failure>>(built.shape()),
                Err(e) => Err::<Tree, Seq<Failure>>(e.failures()),
            },
    ;
}

/// The single failure of a node of kind `actual` where `expected` was asked
/// for.
pub open spec fn mismatch(expected: ValueKind, actual: ValueKind, path: Seq<Step>) -> Seq<
    Failure,
> {
    seq![Failure { cause: Cause::IncorrectValueKind { expected, actual }, path }]
}

/// The single failure of a number that the target cannot hold exactly.
pub open spec fn inexact(kind: ValueKind, path: Seq<Step>) -> Seq<Failure> {
    seq![Failure { cause: Cause::InexactNumber { kind }, path }]
}

/// The visit of one child of a container: where the child stands, and what
/// its conversion comes to.
pub struct Visit<X> {
    pub place: Seq<Step>,
    pub outcome: Result<X, Seq<Failure>>,
}

/// What the traversal of a container comes to from the visit `from` on,
/// with `gathered` the failures kept so far and `built` what the children
/// converted so far came to.
///
/// A child that succeeds is appended. One that fails goes to the policy
/// together with what was gathered: on `Break` the answer is the result and
/// no later child is visited, on `Continue` the answer is kept and the next
/// child is visited. At the end the traversal fails with what was gathered,
/// if anything was, and else succeeds with what was built.
pub open spec fn gather<E: DeserializeError, X>(
    visits: Seq<Visit<X>>,
    from: nat,
    gathered: Option<Seq<Failure>>,
    built: Seq<X>,
) -> Result<Seq<X>, Seq<Failure>>
    decreases visits.len() - from,
{
    if from >= visits.len() {
        match gathered {
            Some(failures) => Err(failures),
            None => Ok(built),
        }
    } else {
        match visits[from as int].outcome {
            Ok(child) => gather::<E, X>(visits, from + 1, gathered, built.push(child)),
            Err(new) => match E::merged(gathered, new, visits[from as int].place) {
                ControlFlow::Continue(all) => gather::<E, X>(visits, from + 1, Some(all), built),
                ControlFlow::Break(all) => Err(all),
            },
        }
    }
}

/// The visits of the elements of a sequence found at `path`, each
/// converted to a `T` at the path extended by its index.
pub open spec fn element_visits<E: DeserializeError, T: Deserr<E>>(
    items: Seq<Tree>,
    path: Seq<Step>,
) -> Seq<Visit<Tree>> {
    Seq::new(
        items.len(),
        |i: int|
            Visit {
                place: path.push(Step::Index(i as nat)),
                outcome: T::outcome(items[i], path.push(Step::Index(i as nat))),
            },
    )
}

/// The shapes of a sequence of converted values.
pub open spec fn shapes<E: DeserializeError, T: Deserr<E>>(values: Seq<T>) -> Seq<Tree> {
    Seq::new(values.len(), |i: int| values[i].shape())
}

impl<E: DeserializeError> Deserr<E> for bool {
    open spec fn shape(&self) -> Tree {
        Tree::Boolean(*self)
    }

    open spec fn outcome(tree: Tree, path: Seq<Step>) -> Result<Tree, Seq<Failure>> {
        match tree {
            Tree::Boolean(b) => Ok(tree),
            _ => Err(mismatch(ValueKind::Boolean, tree.kind(), path)),
        }
    }

    fn deserialize_from_value<V: IntoValue>(value: Value<V>, location: ValuePointerRef<'_>) -> (r:
        Result<Self, E>) {
        match value {
            Value::Boolean(b) => Ok(b),
            other => Err(
                E::error(
                    ErrorKind::IncorrectValueKind {
                        expected: ValueKind::Boolean,
                        actual: other.kind(),
                    },
                    location,
                ),
            ),
        }
    }
}

impl<E: DeserializeError> Deserr<E> for u64 {
    open spec fn shape(&self) -> Tree {
        Tree::Integer(*self)
    }

    open spec fn outcome(tree: Tree, path: Seq<Step>) -> Result<Tree, Seq<Failure>> {
        match tree {
            Tree::Integer(n) => Ok(tree),
            _ => Err(mismatch(ValueKind::Integer, tree.kind(), path)),
        }
    }

    fn deserialize_from_value<V: IntoValue>(value: Value<V>, location: ValuePointerRef<'_>) -> (r:
        Result<Self, E>) {
        match value {
            Value::Integer(n) => Ok(n),
            other => Err(
                E::error(
                    ErrorKind::IncorrectValueKind {
                        expected: ValueKind::Integer,
                        actual: other.kind(),
                    },
                    location,
                ),
            ),
        }
    }
}

/// The tree of a signed number: its sign decides the kind.
pub open spec fn signed_tree(n: i64) -> Tree {
    if n >= 0 {
        Tree::Integer(n as u64)
    } else {
        Tree::NegativeInteger(n)
    }
}

impl<E: DeserializeError> Deserr<E> for i64 {
    open spec fn shape(&self) -> Tree {
        signed_tree(*self)
    }

    /// Both kinds of whole number are taken; one above the largest `i64`
    /// cannot be held.
    open spec fn outcome(tree: Tree, path: Seq<Step>) -> Result<Tree, Seq<Failure>> {
        match tree {
            Tree::Integer(n) => if n <= i64::MAX {
                Ok(tree)
            } else {
                Err(inexact(ValueKind::Integer, path))
            },
            Tree::NegativeInteger(n) => Ok(signed_tree(n)),
            _ => Err(mismatch(ValueKind::NegativeInteger, tree.kind(), path)),
        }
    }

    fn deserialize_from_value<V: IntoValue>(value: Value<V>, location: ValuePointerRef<'_>) -> (r:
        Result<Self, E>) {
        match value {
            Value::Integer(n) => if n <= i64::MAX as u64 {
                Ok(n as i64)
            } else {
                Err(E::error(ErrorKind::InexactNumber { kind: ValueKind::Integer }, location))
            },
            Value::NegativeInteger(n) => Ok(n),
            other => Err(
                E::error(
                    ErrorKind::IncorrectValueKind {
                        expected: ValueKind::NegativeInteger,
                        actual: other.kind(),
                    },
                    location,
                ),
            ),
        }
    }
}

impl<E: DeserializeError> Deserr<E> for String {
    open spec fn shape(&self) -> Tree {
        Tree::String(self@)
    }

    open spec fn outcome(tree: Tree, path: Seq<Step>) -> Result<Tree, Seq<Failure>> {
        match tree {
            Tree::String(s) => Ok(tree),
            _ => Err(mismatch(ValueKind::String, tree.kind(), path)),
        }
    }

    fn deserialize_from_value<V: IntoValue>(value: Value<V>, location: ValuePointerRef<'_>) -> (r:
        Result<Self, E>) {
        match value {
            Value::String(s) => Ok(s),
            other => Err(
                E::error(
                    ErrorKind::IncorrectValueKind {
                        expected: ValueKind::String,
                        actual: other.kind(),
                    },
                    location,
                ),
            ),
        }
    }
}

impl<E: DeserializeError, T: Deserr<E>> Deserr<E> for Vec<T> {
    open spec fn shape(&self) -> Tree {
        Tree::Sequence(shapes::<E, T>(self@))
    }

    open spec fn outcome(tree: Tree, path: Seq<Step>) -> Result<Tree, Seq<Failure>> {
        match tree {
            Tree::Sequence(items) => match gather::<E, Tree>(
                element_visits::<E, T>(items, path),
                0,
                None,
                Seq::empty(),
            ) {
                Ok(built) => Ok(Tree::Sequence(built)),
                Err(failures) => Err(failures),
            },
            _ => Err(mismatch(ValueKind::Sequence, tree.kind(), path)),
        }
    }

    fn deserialize_from_value<V: IntoValue>(value: Value<V>, location: ValuePointerRef<'_>) -> (r:
        Result<Self, E>) {
        match value {
            Value::Sequence(seq) => {
                let ghost trees = item_trees(seq.items());
                let items = seq.into_vec();
                let ghost all = items@;
                let n = items.len();
                let mut built: Vec<T> = Vec::with_capacity(n);
                let mut error: Option<E> = None;
                let mut index: usize = 0;
                assert(shapes::<E, T>(built@) =~= Seq::<Tree>::empty());
                for item in it: items.into_iter()
                    invariant
                        it.seq() == all,
                        all.len() == n,
                        index == it.index(),
                        trees == item_trees(all),
                        value.tree() == Tree::Sequence(trees),
                        gather::<E, Tree>(
                            element_visits::<E, T>(trees, location@),
                            0,
                            None,
                            Seq::empty(),
                        ) == gather::<E, Tree>(
                            element_visits::<E, T>(trees, location@),
                            index as nat,
                            match error {
                                Some(e) => Some(e.failures()),
                                None => None,
                            },
                            shapes::<E, T>(built@),
                        ),
                {
                    let here = location.push_index(index);
                    let ghost before = shapes::<E, T>(built@);
                    match T::deserialize_from_value(item.into_value(), here) {
                        Ok(element) => {
                            built.push(element);
                            assert(shapes::<E, T>(built@) =~= before.push(element.shape()));
                        },
                        Err(e) => {
                            match E::merge(error, e, here) {
                                ControlFlow::Continue(all) => {
                                    error = Some(all);
                                },
                                ControlFlow::Break(all) => {
                                    return Err(all);
                                },
                            }
                        },
                    }
                    index = index + 1;
                }
                match error {
                    Some(e) => Err(e),
                    None => Ok(built),
                }
            },
            other => Err(
                E::error(
                    ErrorKind::IncorrectValueKind {
                        expected: ValueKind::Sequence,
                        actual: other.kind(),
                    },
                    location,
                ),
            ),
        }
    }
}

/// The single failure of a map that lacks the key `field`.
pub open spec fn missing(field: Seq<char>, path: Seq<Step>) -> Seq<Failure> {
    seq![Failure { cause: Cause::MissingField { field }, path }]
}

/// The single failure of a map that holds the key `key`, which the target
/// does not know.
pub open spec fn unknown(key: Seq<char>, path: Seq<Step>) -> Seq<Failure> {
    seq![Failure { cause: Cause::UnknownKey { key }, path }]
}

/// What a result holds: the shape of the value built, or the failures of
/// the error.
pub open spec fn result_model<E: DeserializeError, T: Deserr<E>>(r: Result<T, E>) -> Result<
    Tree,
    Seq<Failure>,
> {
    match r {
        Ok(built) => Ok(built.shape()),
        Err(e) => Err(e.failures()),
    }
}

/// Takes the value under `key` out of a map found at `location` and
/// converts it, at the path of the map extended by the key. A map without
/// the key stays as it is, and the error is that of a missing field, at
/// the place of the map.
pub fn take_field<E, M, T>(map: &mut M, key: &str, location: ValuePointerRef<'_>) -> (r: Result<
    T,
    E,
>) where E: DeserializeError, M: Mapping, M::Value: IntoValue, T: Deserr<E>
    ensures
        !has_key(old(map).entries(), key@) ==> {
            &&& final(map).entries() == old(map).entries()
            &&& result_model(r) == Err::<Tree, Seq<Failure>>(missing(key@, location@))
        },
        has_key(old(map).entries(), key@) ==> exists|i: int|
            {
                &&& 0 <= i < old(map).entries().len()
                &&& (#[trigger] old(map).entries()[i]).0 == key@
                &&& final(map).entries().to_multiset() == old(map).entries().remove(
                    i,
                ).to_multiset()
                &&& result_model(r) == T::outcome(
                    old(map).entries()[i].1.tree(),
                    location@.push(Step::Key(key@)),
                )
            },
{
    match map.remove(key) {
        Some(value) => {
            let here = location.push_key(key);
            T::deserialize_from_value(value.into_value(), here)
        },
        None => Err(E::error(ErrorKind::MissingField { field: key.to_owned() }, location)),
    }
}

/// The visits of the entries of a map found at `path` whose keys the
/// target does not know: each fails, at the place of the map.
pub open spec fn unknown_visits<V>(entries: Seq<(Seq<char>, V)>, path: Seq<Step>) -> Seq<
    Visit<()>,
> {
    Seq::new(
        entries.len(),
        |i: int| Visit { place: path, outcome: Err(unknown(entries[i].0, path)) },
    )
}

/// Turns each entry that is left in a map found at `location` into the
/// failure of an unknown key, and lets the policy gather them after
/// `error`. Succeeds only where nothing was gathered and no entry is left.
pub fn reject_unknown_keys<E, M>(map: M, location: ValuePointerRef<'_>, error: Option<E>) -> (r:
    Result<(), E>) where E: DeserializeError, M: Mapping
    ensures
        gather::<E, ()>(
            unknown_visits(map.entries(), location@),
            0,
            match error {
                Some(e) => Some(e.failures()),
                None => None,
            },
            Seq::empty(),
        ) == match r {
            Ok(u) => Ok::<Seq<()>, Seq<Failure>>(Seq::empty()),
            Err(e) => Err::<Seq<()>, Seq<Failure>>(e.failures()),
        },
{
    let ghost all = map.entries();
    let ghost visits = unknown_visits(all, location@);
    let ghost given = gathered(error);
    let mut kept = error;
    let mut iter = map.into_iter();
    let ghost mut from: nat = 0;
    loop
        invariant_except_break
            iter.remaining() == all.skip(from as int),
        invariant
            from <= all.len(),
            all == map.entries(),
            given == gathered(error),
            visits == unknown_visits(all, location@),
            gather::<E, ()>(
                visits,
                0,
                given,
                Seq::empty(),
            ) == gather::<E, ()>(
                visits,
                from,
                match kept {
                    Some(e) => Some(e.failures()),
                    None => None,
                },
                Seq::empty(),
            ),
        ensures
            from == all.len(),
        decreases all.len() - from,
    {
        match iter.next() {
            None => {
                break ;
            },
            Some((key, _)) => {
                let new = E::error(ErrorKind::UnknownKey { key }, location);
                match E::merge(kept, new, location) {
                    ControlFlow::Continue(all) => {
                        kept = Some(all);
                    },
                    ControlFlow::Break(all) => {
                        return Err(all);
                    },
                }
                proof {
                    from = from + 1;
                }
            },
        }
    }
    match kept {
        Some(e) => Err(e),
        None => Ok(()),
    }
}

} // verus!
