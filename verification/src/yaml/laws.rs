//! What holds of every YAML document and its conversions.

use crate::deserr::gather;
use crate::error::{DeserializeError, Failure};
use crate::float::Num;
use crate::laws::{lemma_failure_fails, lemma_order_kept, some_failed};
use crate::pointer::Step;
use crate::value::{collected, has_key, key_index, lemma_key_index, put, Tree, ValueKind};
use crate::yaml::convert::{yaml_entry_visits, yaml_item_visits, yaml_outcome};
use crate::yaml::model::{canon, rebuilt, rebuilt_entries, rebuilt_items, Yaml};
use vstd::prelude::*;

verus! {

/// Whether no two of the entries stand under the same key.
pub open spec fn distinct_keys<V>(entries: Seq<(Seq<char>, V)>) -> bool {
    forall|i: int, j: int|
        0 <= i < entries.len() && 0 <= j < entries.len() && i != j ==> (#[trigger] entries[i]).0
            != (#[trigger] entries[j]).0
}

/// Whether a YAML document is one that a map can hold and that carries no
/// tag: in each of its maps no key stands twice, and no value in it is
/// tagged.
pub open spec fn plain(yaml: Yaml) -> bool
    decreases yaml,
{
    match yaml {
        Yaml::Sequence(items) => forall|i: int| 0 <= i < items.len() ==> plain(#[trigger] items[i]),
        Yaml::Mapping(entries) => distinct_keys(entries) && forall|i: int|
            0 <= i < entries.len() ==> plain((#[trigger] entries[i]).1),
        Yaml::Tagged(_) => false,
        _ => true,
    }
}

/// Entries with distinct keys are collected as they are.
pub proof fn lemma_collected_distinct<V>(pairs: Seq<(Seq<char>, V)>)
    requires
        distinct_keys(pairs),
    ensures
        collected(pairs) == pairs,
    decreases pairs.len(),
{
    if pairs.len() > 0 {
        let before = pairs.drop_last();
        let last = pairs.last();
        assert(distinct_keys(before)) by {
            assert forall|i: int, j: int|
                0 <= i < before.len() && 0 <= j < before.len() && i != j implies (
            #[trigger] before[i]).0 != (#[trigger] before[j]).0 by {
                assert(before[i] == pairs[i] && before[j] == pairs[j]);
            }
        }
        lemma_collected_distinct(before);
        lemma_key_index(before, last.0);
        assert(!has_key(before, last.0)) by {
            if has_key(before, last.0) {
                let i = key_index(before, last.0);
                assert(before[i] == pairs[i]);
                assert(pairs[i].0 == pairs[pairs.len() - 1].0);
            }
        }
        assert(put(before, last.0, last.1) =~= pairs);
    }
}

/// Numeric classification. A YAML number is of exactly one kind: `Integer`
/// if it is a whole number that is not negative, else `NegativeInteger` if
/// it is a whole number, else `Float`.
pub proof fn lemma_number_kind(number: Num)
    ensures
        canon(Yaml::Number(number)).kind() == match number {
            Num::Integer(n) => if n >= 0 {
                ValueKind::Integer
            } else {
                ValueKind::NegativeInteger
            },
            Num::Float(_) => ValueKind::Float,
        },
{
}

/// Tags are transparent. A tagged value stands for the document that the
/// value inside the tag stands for, so it is classified and opened as that
/// value is.
pub proof fn lemma_tag_transparent(inner: Yaml)
    ensures
        canon(Yaml::Tagged(Box::new(inner))) == canon(inner),
        canon(Yaml::Tagged(Box::new(inner))).kind() == canon(inner).kind(),
{
}

/// Round trip. The YAML value built from the document of a plain YAML
/// value holds what that value holds.
pub proof fn lemma_round_trip(yaml: Yaml)
    requires
        plain(yaml),
    ensures
        rebuilt(canon(yaml)) == yaml,
    decreases yaml,
{
    match yaml {
        Yaml::Sequence(items) => {
            let trees = canon(yaml)->Sequence_0;
            assert forall|i: int| 0 <= i < items.len() implies rebuilt(#[trigger] trees[i])
                == items[i] by {
                lemma_round_trip(items[i]);
            }
            assert(rebuilt_items(trees) =~= items);
        },
        Yaml::Mapping(entries) => {
            let trees = canon(yaml)->Mapping_0;
            assert forall|i: int| 0 <= i < entries.len() implies rebuilt((#[trigger] trees[i]).1)
                == entries[i].1 by {
                lemma_round_trip(entries[i].1);
            }
            assert(rebuilt_entries(trees) =~= entries);
            lemma_collected_distinct(entries);
        },
        _ => {},
    }
}

/// Round trip, with the check for exactness. The conversion of the
/// document of a plain YAML value into a YAML value succeeds under every
/// policy and at every place, and the value built holds what that value
/// holds.
pub proof fn lemma_round_trip_checked<E: DeserializeError>(yaml: Yaml, path: Seq<Step>)
    requires
        plain(yaml),
    ensures
        yaml_outcome::<E>(canon(yaml), path) == Ok::<Yaml, Seq<Failure>>(yaml),
    decreases yaml,
{
    match yaml {
        Yaml::Sequence(items) => {
            let trees = canon(yaml)->Sequence_0;
            let visits = yaml_item_visits::<E>(trees, path);
            assert forall|i: int| 0 <= i < visits.len() implies (#[trigger] visits[i]).outcome
                == Ok::<Yaml, Seq<Failure>>(items[i]) by {
                lemma_round_trip_checked::<E>(items[i], path.push(Step::Index(i as nat)));
            }
            lemma_order_kept::<E, Yaml>(visits);
            assert(gather::<E, Yaml>(visits, 0, None, Seq::empty())->Ok_0 =~= items);
        },
        Yaml::Mapping(entries) => {
            let trees = canon(yaml)->Mapping_0;
            let visits = yaml_entry_visits::<E>(trees, path);
            assert forall|i: int| 0 <= i < visits.len() implies (#[trigger] visits[i]).outcome
                == Ok::<(Seq<char>, Yaml), Seq<Failure>>(entries[i]) by {
                lemma_round_trip_checked::<E>(entries[i].1, path.push(Step::Key(entries[i].0)));
            }
            lemma_order_kept::<E, (Seq<char>, Yaml)>(visits);
            assert(gather::<E, (Seq<char>, Yaml)>(visits, 0, None, Seq::empty())->Ok_0
                =~= entries);
            lemma_collected_distinct(entries);
        },
        _ => {},
    }
}

/// The two conversions agree. Where the conversion with the check for
/// exactness succeeds, the value built holds what the conversion without
/// the check builds.
pub proof fn lemma_checked_agrees<E: DeserializeError>(tree: Tree, path: Seq<Step>)
    requires
        yaml_outcome::<E>(tree, path) is Ok,
    ensures
        yaml_outcome::<E>(tree, path) == Ok::<Yaml, Seq<Failure>>(rebuilt(tree)),
    decreases tree,
{
    match tree {
        Tree::Sequence(items) => {
            let visits = yaml_item_visits::<E>(items, path);
            if some_failed(visits, 0) {
                lemma_failure_fails::<E, Yaml>(visits);
            }
            lemma_order_kept::<E, Yaml>(visits);
            let built = gather::<E, Yaml>(visits, 0, None, Seq::empty())->Ok_0;
            assert forall|i: int| 0 <= i < items.len() implies #[trigger] built[i] == rebuilt(
                items[i],
            ) by {
                lemma_checked_agrees::<E>(items[i], path.push(Step::Index(i as nat)));
            }
            assert(built =~= rebuilt_items(items));
        },
        Tree::Mapping(entries) => {
            let visits = yaml_entry_visits::<E>(entries, path);
            if some_failed(visits, 0) {
                lemma_failure_fails::<E, (Seq<char>, Yaml)>(visits);
            }
            lemma_order_kept::<E, (Seq<char>, Yaml)>(visits);
            let built = gather::<E, (Seq<char>, Yaml)>(visits, 0, None, Seq::empty())->Ok_0;
            assert forall|i: int| 0 <= i < entries.len() implies #[trigger] built[i] == (
                entries[i].0,
                rebuilt(entries[i].1),
            ) by {
                assert(!(visits[i].outcome is Err));
                lemma_checked_agrees::<E>(entries[i].1, path.push(Step::Key(entries[i].0)));
            }
            assert(built =~= rebuilt_entries(entries));
        },
        _ => {},
    }
}

} // verus!
