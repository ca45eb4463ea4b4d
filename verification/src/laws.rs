//! What holds of every traversal, whatever the container and the target.

use crate::deserr::{element_visits, gather, Deserr, Visit};
use crate::error::{DeserializeError, Failure};
use crate::errors::{Capped, CollectAll, FailFast};
use crate::pointer::Step;
use crate::value::Tree;
use std::ops::ControlFlow;
use vstd::prelude::*;

verus! {

/// What the visits from `from` on came to, where all of them succeeded.
pub open spec fn successes<X>(visits: Seq<Visit<X>>, from: nat) -> Seq<X>
    decreases visits.len() - from,
{
    if from >= visits.len() {
        Seq::empty()
    } else {
        seq![visits[from as int].outcome->Ok_0] + successes(visits, from + 1)
    }
}

/// The failures of the visits from `from` on that failed, in the order of
/// the visits.
pub open spec fn failures_from<X>(visits: Seq<Visit<X>>, from: nat) -> Seq<Failure>
    decreases visits.len() - from,
{
    if from >= visits.len() {
        Seq::empty()
    } else {
        match visits[from as int].outcome {
            Ok(_) => failures_from(visits, from + 1),
            Err(failures) => failures + failures_from(visits, from + 1),
        }
    }
}

/// Whether a visit from `from` on failed.
pub open spec fn some_failed<X>(visits: Seq<Visit<X>>, from: nat) -> bool {
    exists|i: int| from <= i < visits.len() && (#[trigger] visits[i]).outcome is Err
}

/// `successes` has one entry for each visit, in the order of the visits.
pub proof fn lemma_successes<X>(visits: Seq<Visit<X>>, from: nat)
    requires
        from <= visits.len(),
    ensures
        successes(visits, from).len() == visits.len() - from,
        forall|i: int|
            0 <= i < visits.len() - from ==> #[trigger] successes(visits, from)[i] == visits[from
                + i].outcome->Ok_0,
    decreases visits.len() - from,
{
    if from < visits.len() {
        lemma_successes(visits, from + 1);
    }
}

/// Where no visit from `from` on fails, the traversal appends what they came
/// to.
proof fn lemma_gather_successes<E: DeserializeError, X>(
    visits: Seq<Visit<X>>,
    from: nat,
    built: Seq<X>,
)
    requires
        !some_failed(visits, from),
    ensures
        gather::<E, X>(visits, from, None, built) == Ok::<Seq<X>, Seq<Failure>>(
            built + successes(visits, from),
        ),
    decreases visits.len() - from,
{
    if from < visits.len() {
        let child = visits[from as int].outcome->Ok_0;
        lemma_gather_successes::<E, X>(visits, from + 1, built.push(child));
        assert(built.push(child) + successes(visits, from + 1) =~= built + successes(visits, from));
    }
}

/// Order is kept. Where every child converts, the traversal succeeds,
/// under every policy, with what the children came to, one for one and in
/// the order of the children.
pub proof fn lemma_order_kept<E: DeserializeError, X>(visits: Seq<Visit<X>>)
    requires
        !some_failed(visits, 0),
    ensures
        gather::<E, X>(visits, 0, None, Seq::empty()) matches Ok(built) && {
            &&& built.len() == visits.len()
            &&& forall|i: int| 0 <= i < visits.len() ==> built[i] == visits[i].outcome->Ok_0
        },
{
    lemma_gather_successes::<E, X>(visits, 0, Seq::empty());
    lemma_successes(visits, 0);
}

/// Under the policy that stops at once, the first failure from `from` on is
/// the result, whatever was gathered.
proof fn lemma_gather_fail_fast<X>(
    visits: Seq<Visit<X>>,
    from: nat,
    first: int,
    gathered: Option<Seq<Failure>>,
    built: Seq<X>,
)
    requires
        from <= first < visits.len(),
        visits[first].outcome is Err,
        forall|i: int| from <= i < first ==> (#[trigger] visits[i]).outcome is Ok,
    ensures
        gather::<FailFast, X>(visits, from, gathered, built) == Err::<Seq<X>, Seq<Failure>>(
            visits[first].outcome->Err_0,
        ),
    decreases first - from,
{
    if from < first {
        lemma_gather_fail_fast(
            visits,
            from + 1,
            first,
            gathered,
            built.push(visits[from as int].outcome->Ok_0),
        );
    }
}

/// Fail fast. Under the policy that stops at the first failure the
/// traversal fails with the error of the first child that fails, whatever
/// the children after it are.
pub proof fn lemma_fail_fast_first<X>(visits: Seq<Visit<X>>, first: int)
    requires
        0 <= first < visits.len(),
        visits[first].outcome is Err,
        forall|i: int| 0 <= i < first ==> (#[trigger] visits[i]).outcome is Ok,
    ensures
        gather::<FailFast, X>(visits, 0, None, Seq::empty()) == Err::<Seq<X>, Seq<Failure>>(
            visits[first].outcome->Err_0,
        ),
{
    lemma_gather_fail_fast(visits, 0, first, None, Seq::empty());
}

/// Under the policy that keeps every failure, what was gathered grows by
/// the failures of the visits from `from` on.
proof fn lemma_gather_collect_all<X>(
    visits: Seq<Visit<X>>,
    from: nat,
    gathered: Option<Seq<Failure>>,
    built: Seq<X>,
)
    requires
        gathered is Some || some_failed(visits, from),
    ensures
        gather::<CollectAll, X>(visits, from, gathered, built) == Err::<Seq<X>, Seq<Failure>>(
            match gathered {
                Some(before) => before + failures_from(visits, from),
                None => failures_from(visits, from),
            },
        ),
    decreases visits.len() - from,
{
    if from < visits.len() {
        match visits[from as int].outcome {
            Ok(child) => {
                lemma_gather_collect_all(visits, from + 1, gathered, built.push(child));
            },
            Err(new) => {
                let all = match gathered {
                    Some(before) => before + new,
                    None => new,
                };
                lemma_gather_collect_all(visits, from + 1, Some(all), built);
                if let Some(before) = gathered {
                    assert((before + new) + failures_from(visits, from + 1) =~= before
                        + failures_from(visits, from));
                }
            },
        }
    }
}

/// Collect all. Under the policy that keeps every failure, a traversal in
/// which a child fails visits every child and fails with the failures of
/// all the children that failed, in their order, and with nothing else.
pub proof fn lemma_collect_all_complete<X>(visits: Seq<Visit<X>>)
    requires
        some_failed(visits, 0),
    ensures
        gather::<CollectAll, X>(visits, 0, None, Seq::empty()) == Err::<Seq<X>, Seq<Failure>>(
            failures_from(visits, 0),
        ),
{
    lemma_gather_collect_all(visits, 0, None, Seq::empty());
}

/// Once something was gathered, or where a visit is yet to fail, the
/// traversal fails.
proof fn lemma_gather_after_failure<E: DeserializeError, X>(
    visits: Seq<Visit<X>>,
    from: nat,
    gathered: Option<Seq<Failure>>,
    built: Seq<X>,
)
    requires
        gathered is Some || some_failed(visits, from),
    ensures
        gather::<E, X>(visits, from, gathered, built) is Err,
    decreases visits.len() - from,
{
    if from < visits.len() {
        match visits[from as int].outcome {
            Ok(child) => {
                lemma_gather_after_failure::<E, X>(visits, from + 1, gathered, built.push(child));
            },
            Err(new) => {
                match E::merged(gathered, new, visits[from as int].place) {
                    ControlFlow::Continue(all) => {
                        lemma_gather_after_failure::<E, X>(visits, from + 1, Some(all), built);
                    },
                    ControlFlow::Break(all) => {},
                }
            },
        }
    }
}

/// Nothing partial. Under every policy a traversal succeeds only where
/// every child converts: one failure is enough for the whole to fail,
/// whether or not the policy goes on.
pub proof fn lemma_failure_fails<E: DeserializeError, X>(visits: Seq<Visit<X>>)
    requires
        some_failed(visits, 0),
    ensures
        gather::<E, X>(visits, 0, None, Seq::empty()) is Err,
{
    lemma_gather_after_failure::<E, X>(visits, 0, None, Seq::empty());
}

/// Under the capped policy what is gathered stays within the limit.
proof fn lemma_gather_capped<const LIMIT: usize, X>(
    visits: Seq<Visit<X>>,
    from: nat,
    gathered: Option<Seq<Failure>>,
    built: Seq<X>,
)
    requires
        gathered matches Some(before) ==> before.len() <= LIMIT,
    ensures
        gather::<Capped<LIMIT>, X>(visits, from, gathered, built) matches Err(failures)
            ==> failures.len() <= LIMIT,
    decreases visits.len() - from,
{
    if from < visits.len() {
        match visits[from as int].outcome {
            Ok(child) => {
                lemma_gather_capped::<LIMIT, X>(visits, from + 1, gathered, built.push(child));
            },
            Err(new) => {
                match Capped::<LIMIT>::merged(gathered, new, visits[from as int].place) {
                    ControlFlow::Continue(all) => {
                        lemma_gather_capped::<LIMIT, X>(visits, from + 1, Some(all), built);
                    },
                    ControlFlow::Break(all) => {},
                }
            },
        }
    }
}

/// The cap holds. Under the policy that keeps up to `LIMIT` failures, a
/// traversal that fails stands for at most `LIMIT` failures.
pub proof fn lemma_capped_bound<const LIMIT: usize, X>(visits: Seq<Visit<X>>)
    ensures
        gather::<Capped<LIMIT>, X>(visits, 0, None, Seq::empty()) matches Err(failures)
            ==> failures.len() <= LIMIT,
{
    lemma_gather_capped::<LIMIT, X>(visits, 0, None, Seq::empty());
}

/// Order is kept by a sequence. Where every element of a sequence
/// converts, the sequence converts, under every policy, to the list of
/// what the elements came to, in the order of the elements.
pub proof fn lemma_sequence_order_kept<E: DeserializeError, T: Deserr<E>>(
    items: Seq<Tree>,
    path: Seq<Step>,
)
    requires
        forall|i: int|
            0 <= i < items.len() ==> T::outcome(#[trigger] items[i], path.push(Step::Index(i as nat)))
                is Ok,
    ensures
        <Vec<T> as Deserr<E>>::outcome(Tree::Sequence(items), path) == Ok::<Tree, Seq<Failure>>(
            Tree::Sequence(
                Seq::new(
                    items.len(),
                    |i: int| T::outcome(items[i], path.push(Step::Index(i as nat)))->Ok_0,
                ),
            ),
        ),
{
    let visits = element_visits::<E, T>(items, path);
    lemma_order_kept::<E, Tree>(visits);
    assert(gather::<E, Tree>(visits, 0, None, Seq::empty())->Ok_0 =~= Seq::new(
        items.len(),
        |i: int| T::outcome(items[i], path.push(Step::Index(i as nat)))->Ok_0,
    ));
}

/// Fail fast in a sequence. Under the policy that stops at the first
/// failure a sequence fails with the error of its first element that
/// fails, whatever the elements after it are.
pub proof fn lemma_sequence_fail_fast<T: Deserr<FailFast>>(
    items: Seq<Tree>,
    path: Seq<Step>,
    first: int,
)
    requires
        0 <= first < items.len(),
        T::outcome(items[first], path.push(Step::Index(first as nat))) is Err,
        forall|i: int|
            0 <= i < first ==> T::outcome(#[trigger] items[i], path.push(Step::Index(i as nat)))
                is Ok,
    ensures
        <Vec<T> as Deserr<FailFast>>::outcome(Tree::Sequence(items), path) == Err::<
            Tree,
            Seq<Failure>,
        >(T::outcome(items[first], path.push(Step::Index(first as nat)))->Err_0),
{
    let visits = element_visits::<FailFast, T>(items, path);
    lemma_fail_fast_first::<Tree>(visits, first);
}

/// Collect all in a sequence. Under the policy that keeps every failure, a
/// sequence with an element that fails comes to the failures of all its
/// elements that fail, in their order, and to nothing else.
pub proof fn lemma_sequence_collect_all<T: Deserr<CollectAll>>(
    items: Seq<Tree>,
    path: Seq<Step>,
    failing: int,
)
    requires
        0 <= failing < items.len(),
        T::outcome(items[failing], path.push(Step::Index(failing as nat))) is Err,
    ensures
        <Vec<T> as Deserr<CollectAll>>::outcome(Tree::Sequence(items), path) == Err::<
            Tree,
            Seq<Failure>,
        >(failures_from(element_visits::<CollectAll, T>(items, path), 0)),
{
    let visits = element_visits::<CollectAll, T>(items, path);
    assert(visits[failing].outcome is Err);
    lemma_collect_all_complete::<Tree>(visits);
}

} // verus!
