//! A YAML value as a target: built from the document of any format.

use crate::deserr::{gather, inexact, Deserr, Visit};
use crate::error::{DeserializeError, ErrorKind, Failure};
use crate::float::Num;
use crate::pointer::{Step, ValuePointerRef};
use crate::value::{
    collected, entry_trees, item_trees, key_index, lemma_element_smaller, lemma_entry_smaller,
    lemma_key_index, put, IntoValue, MapIter, Mapping, Sequence, Tree, Value, ValueKind,
};
use crate::yaml::model::{
    canon, entry_models, item_models, rebuilt, rebuilt_entries, rebuilt_items, Yaml,
};
use crate::yaml::outside::{
    close_value, mapping_entries, mapping_from_entries, mapping_insert, pair_views, yaml_model,
    Plain,
};
use serde_yml::{Mapping as YMap, Number as YNumber, Value as YValue};
use std::ops::ControlFlow;
use vstd::prelude::*;

verus! {

/// What the conversion of the document `tree`, found at `path`, into a YAML
/// value comes to: what the value built holds, or the failures of the
/// error.
///
/// A whole number above the largest `i64` fails, since a YAML number
/// cannot hold it exactly. Nothing else fails by itself. The children of a
/// container are visited in their order, each at the path of the container
/// extended by its index or its key, and the policy gathers their
/// failures.
pub open spec fn yaml_outcome<E: DeserializeError>(tree: Tree, path: Seq<Step>) -> Result<
    Yaml,
    Seq<Failure>,
>
    decreases tree,
{
    match tree {
        Tree::Null => Ok(Yaml::Null),
        Tree::Boolean(b) => Ok(Yaml::Bool(b)),
        Tree::Integer(n) => if n <= i64::MAX {
            Ok(Yaml::Number(Num::Integer(n as i64)))
        } else {
            Err(inexact(ValueKind::Integer, path))
        },
        Tree::NegativeInteger(n) => Ok(Yaml::Number(Num::Integer(n))),
        Tree::Float(bits) => Ok(Yaml::Number(Num::Float(bits))),
        Tree::String(s) => Ok(Yaml::String(s)),
        Tree::Sequence(items) => match gather::<E, Yaml>(
            yaml_item_visits::<E>(items, path),
            0,
            None,
            Seq::empty(),
        ) {
            Ok(built) => Ok(Yaml::Sequence(built)),
            Err(failures) => Err(failures),
        },
        Tree::Mapping(entries) => match gather::<E, (Seq<char>, Yaml)>(
            yaml_entry_visits::<E>(entries, path),
            0,
            None,
            Seq::empty(),
        ) {
            Ok(built) => Ok(Yaml::Mapping(collected(built))),
            Err(failures) => Err(failures),
        },
    }
}

/// The visits of the elements of a sequence found at `path`.
pub open spec fn yaml_item_visits<E: DeserializeError>(items: Seq<Tree>, path: Seq<Step>) -> Seq<
    Visit<Yaml>,
>
    decreases items,
{
    Seq::new(
        items.len(),
        |i: int|
            Visit {
                place: path.push(Step::Index(i as nat)),
                outcome: if 0 <= i < items.len() {
                    yaml_outcome::<E>(items[i], path.push(Step::Index(i as nat)))
                } else {
                    Ok(Yaml::Null)
                },
            },
    )
}

/// The visits of the entries of a map found at `path`.
pub open spec fn yaml_entry_visits<E: DeserializeError>(
    entries: Seq<(Seq<char>, Tree)>,
    path: Seq<Step>,
) -> Seq<Visit<(Seq<char>, Yaml)>>
    decreases entries,
{
    Seq::new(
        entries.len(),
        |i: int|
            Visit {
                place: path.push(Step::Key(entries[i].0)),
                outcome: if 0 <= i < entries.len() {
                    match yaml_outcome::<E>(entries[i].1, path.push(Step::Key(entries[i].0))) {
                        Ok(child) => Ok((entries[i].0, child)),
                        Err(failures) => Err(failures),
                    }
                } else {
                    Ok((Seq::empty(), Yaml::Null))
                },
            },
    )
}

/// The first entry under a key stands at the same place among the values
/// of a map as among what they hold.
proof fn lemma_key_index_models(entries: Seq<(Seq<char>, YValue)>, key: Seq<char>)
    ensures
        key_index(entry_models(entries), key) == key_index(entries, key),
    decreases entries.len(),
{
    if entries.len() > 0 && entries[0].0 != key {
        lemma_key_index_models(entries.drop_first(), key);
        assert(entry_models(entries.drop_first()) =~= entry_models(entries).drop_first());
    }
}

/// What a map holds after a value was put into it is what it held before,
/// with what the value holds put into that.
proof fn lemma_put_models(
    entries: Seq<(Seq<char>, YValue)>,
    key: Seq<char>,
    value: YValue,
)
    ensures
        entry_models(put(entries, key, value)) == put(
            entry_models(entries),
            key,
            yaml_model(value),
        ),
{
    lemma_key_index_models(entries, key);
    lemma_key_index(entries, key);
}

/// What a result holds: what the value built holds, or the failures of the
/// error.
pub open spec fn yaml_result<E: DeserializeError>(r: Result<YValue, E>) -> Result<
    Yaml,
    Seq<Failure>,
> {
    match r {
        Ok(built) => Ok(yaml_model(built)),
        Err(e) => Err(e.failures()),
    }
}

impl<E: DeserializeError> Deserr<E> for YValue {
    open spec fn shape(&self) -> Tree {
        canon(yaml_model(*self))
    }

    open spec fn outcome(tree: Tree, path: Seq<Step>) -> Result<Tree, Seq<Failure>> {
        match yaml_outcome::<E>(tree, path) {
            Ok(yaml) => Ok(canon(yaml)),
            Err(failures) => Err(failures),
        }
    }

    fn deserialize_from_value<V: IntoValue>(value: Value<V>, location: ValuePointerRef<'_>) -> (r:
        Result<Self, E>)
        ensures
            yaml_outcome::<E>(value.tree(), location@) == yaml_result::<E>(r),
        decreases value.tree(),
    {
        let mut error: Option<E> = None;
        match value {
            Value::Null => Ok(close_value(Plain::Null)),
            Value::Boolean(b) => Ok(close_value(Plain::Bool(b))),
            Value::Integer(x) => {
                let number = YNumber::from(x);
                match number.as_u64() {
                    Some(back) => if back == x {
                        Ok(close_value(Plain::Number(number)))
                    } else {
                        Err(
                            E::error(
                                ErrorKind::InexactNumber { kind: ValueKind::Integer },
                                location,
                            ),
                        )
                    },
                    None => Err(
                        E::error(ErrorKind::InexactNumber { kind: ValueKind::Integer }, location),
                    ),
                }
            },
            Value::NegativeInteger(x) => Ok(close_value(Plain::Number(YNumber::from(x)))),
            Value::Float(f) => Ok(close_value(Plain::Number(f.into_number()))),
            Value::String(s) => Ok(close_value(Plain::String(s))),
            Value::Sequence(seq) => {
                let ghost trees = item_trees(seq.items());
                let ghost visits = yaml_item_visits::<E>(trees, location@);
                let items = seq.into_vec();
                let ghost all = items@;
                let n = items.len();
                let mut yseq: Vec<YValue> = Vec::with_capacity(n);
                let mut index: usize = 0;
                assert(item_models(yseq@) =~= Seq::<Yaml>::empty());
                for item in it: items.into_iter()
                    invariant
                        it.seq() == all,
                        all.len() == n,
                        index == it.index(),
                        trees == item_trees(all),
                        value.tree() == Tree::Sequence(trees),
                        visits == yaml_item_visits::<E>(trees, location@),
                        gather::<E, Yaml>(visits, 0, None, Seq::empty()) == gather::<E, Yaml>(
                            visits,
                            index as nat,
                            match error {
                                Some(e) => Some(e.failures()),
                                None => None,
                            },
                            item_models(yseq@),
                        ),
                {
                    let here = location.push_index(index);
                    let ghost before = item_models(yseq@);
                    proof {
                        lemma_element_smaller(value.tree(), index as int);
                    }
                    match Self::deserialize_from_value(item.into_value(), here) {
                        Ok(child) => {
                            yseq.push(child);
                            assert(item_models(yseq@) =~= before.push(yaml_model(child)));
                        },
                        Err(e) => {
                            match E::merge(error, e, here) {
                                ControlFlow::Continue(all) => {
                                    error = Some(all);
                                },
                                ControlFlow::Break(all) => {
                                    return Err(all);
                                },
                            }
                        },
                    }
                    index = index + 1;
                }
                match error {
                    Some(e) => Err(e),
                    None => Ok(close_value(Plain::Sequence(yseq))),
                }
            },
            Value::Mapping(map) => {
                let ghost all = map.entries();
                let ghost trees = entry_trees(all);
                let ghost visits = yaml_entry_visits::<E>(trees, location@);
                let mut jmap = YMap::new();
                let mut iter = map.into_iter();
                let ghost mut from: nat = 0;
                let ghost mut built: Seq<(Seq<char>, Yaml)> = Seq::empty();
                loop
                    invariant_except_break
                        iter.remaining() == all.skip(from as int),
                    invariant
                        from <= all.len(),
                        trees == entry_trees(all),
                        value.tree() == Tree::Mapping(trees),
                        visits == yaml_entry_visits::<E>(trees, location@),
                        entry_models(mapping_entries(jmap)) == collected(built),
                        gather::<E, (Seq<char>, Yaml)>(visits, 0, None, Seq::empty()) == gather::<
                            E,
                            (Seq<char>, Yaml),
                        >(
                            visits,
                            from,
                            match error {
                                Some(e) => Some(e.failures()),
                                None => None,
                            },
                            built,
                        ),
                    ensures
                        from == all.len(),
                    decreases all.len() - from,
                {
                    match iter.next() {
                        None => {
                            break ;
                        },
                        Some((key, child)) => {
                            let ghost name = key@;
                            proof {
                                lemma_entry_smaller(value.tree(), from as int);
                            }
                            let here = location.push_key(key.as_str());
                            match Self::deserialize_from_value(child.into_value(), here) {
                                Ok(converted) => {
                                    proof {
                                        lemma_put_models(mapping_entries(jmap), name, converted);
                                        assert(built.push((name, yaml_model(converted))).drop_last()
                                            =~= built);
                                        built = built.push((name, yaml_model(converted)));
                                    }
                                    mapping_insert(&mut jmap, key, converted);
                                },
                                Err(e) => {
                                    match E::merge(error, e, here) {
                                        ControlFlow::Continue(all) => {
                                            error = Some(all);
                                        },
                                        ControlFlow::Break(all) => {
                                            return Err(all);
                                        },
                                    }
                                },
                            }
                            proof {
                                from = from + 1;
                            }
                        },
                    }
                }
                match error {
                    Some(e) => Err(e),
                    None => Ok(close_value(Plain::Mapping(jmap))),
                }
            },
        }
    }
}

/// What a map holds that was collected from entries is what is collected
/// from what the entries hold.
proof fn lemma_collected_models(pairs: Seq<(Seq<char>, YValue)>)
    ensures
        entry_models(collected(pairs)) == collected(entry_models(pairs)),
    decreases pairs.len(),
{
    if pairs.len() > 0 {
        lemma_collected_models(pairs.drop_last());
        lemma_put_models(collected(pairs.drop_last()), pairs.last().0, pairs.last().1);
        assert(entry_models(pairs).drop_last() =~= entry_models(pairs.drop_last()));
    }
}

impl<V: IntoValue> vstd::std_specs::convert::FromSpecImpl<Value<V>> for YValue {
    open spec fn obeys_from_spec() -> bool {
        false
    }

    open spec fn from_spec(value: Value<V>) -> YValue {
        arbitrary()
    }
}

impl<V: IntoValue> From<Value<V>> for YValue {
    /// Never fails: a whole number above the largest `i64` becomes the
    /// binary64 number that `Number::from` makes of it.
    fn from(value: Value<V>) -> (built: YValue)
        ensures
            yaml_model(built) == rebuilt(value.tree()),
        decreases value.tree(),
    {
        match value {
            Value::Null => close_value(Plain::Null),
            Value::Boolean(b) => close_value(Plain::Bool(b)),
            Value::Integer(n) => close_value(Plain::Number(YNumber::from(n))),
            Value::NegativeInteger(i) => close_value(Plain::Number(YNumber::from(i))),
            Value::Float(f) => close_value(Plain::Number(f.into_number())),
            Value::String(s) => close_value(Plain::String(s)),
            Value::Sequence(s) => {
                let ghost trees = item_trees(s.items());
                let items = s.into_vec();
                let ghost all = items@;
                let n = items.len();
                let mut yseq: Vec<YValue> = Vec::with_capacity(n);
                let mut index: usize = 0;
                for item in it: items.into_iter()
                    invariant
                        it.seq() == all,
                        all.len() == n,
                        index == it.index(),
                        trees == item_trees(all),
                        value.tree() == Tree::Sequence(trees),
                        yseq@.len() == index,
                        forall|j: int|
                            0 <= j < index ==> yaml_model(#[trigger] yseq@[j]) == rebuilt(trees[j]),
                {
                    proof {
                        lemma_element_smaller(value.tree(), index as int);
                    }
                    yseq.push(YValue::from(item.into_value()));
                    index = index + 1;
                }
                assert(item_models(yseq@) =~= rebuilt_items(trees));
                close_value(Plain::Sequence(yseq))
            },
            Value::Mapping(m) => {
                let ghost all = m.entries();
                let ghost trees = entry_trees(all);
                let mut pairs: Vec<(String, YValue)> = Vec::new();
                let mut iter = m.into_iter();
                loop
                    invariant_except_break
                        iter.remaining() == all.skip(pairs@.len() as int),
                    invariant
                        pairs@.len() <= all.len(),
                        trees == entry_trees(all),
                        value.tree() == Tree::Mapping(trees),
                        forall|j: int|
                            0 <= j < pairs@.len() ==> {
                                &&& (#[trigger] pairs@[j]).0@ == trees[j].0
                                &&& yaml_model(pairs@[j].1) == rebuilt(trees[j].1)
                            },
                    ensures
                        pairs@.len() == all.len(),
                    decreases all.len() - pairs@.len(),
                {
                    match iter.next() {
                        None => {
                            break ;
                        },
                        Some((key, child)) => {
                            proof {
                                let from = pairs@.len() as int;
                                lemma_entry_smaller(value.tree(), from);
                            }
                            pairs.push((key, YValue::from(child.into_value())));
                        },
                    }
                }
                proof {
                    lemma_collected_models(pair_views(pairs@));
                    assert(entry_models(pair_views(pairs@)) =~= rebuilt_entries(trees));
                }
                close_value(Plain::Mapping(mapping_from_entries(pairs)))
            },
        }
    }
}

} // verus!
