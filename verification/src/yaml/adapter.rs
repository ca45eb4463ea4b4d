//! A YAML value as a node of a document: its kind, its one level, and its
//! maps as the traversal takes them.

use crate::float::Float;
use crate::value::{
    entry_trees, item_trees, key_index, lemma_key_index, IntoValue, MapIter, Mapping, Native, Tree,
    Value, ValueKind,
};
use crate::yaml::model::{canon, level_model, untagged};
use crate::yaml::outside::{
    entries_left, glance_at, mapping_entries, mapping_into_iter, mapping_len, mapping_remove,
    next_entry, open_value, yaml_model, Glance, Node, Plain,
};
use serde_yml::{Mapping as YMap, Value as YValue};
use vstd::pervasive::unreached;
use vstd::prelude::*;

verus! {

/// The entries of a YAML map, handed out one at a time.
pub struct YMapIter {
    iter: indexmap::map::IntoIter<String, YValue>,
}

impl MapIter for YMapIter {
    type Value = YValue;

    closed spec fn remaining(&self) -> Seq<(Seq<char>, YValue)> {
        entries_left(self.iter)
    }

    fn next(&mut self) -> (r: Option<(String, YValue)>) {
        next_entry(&mut self.iter)
    }
}

impl Mapping for YMap {
    type Value = YValue;

    type Iter = YMapIter;

    open spec fn entries(&self) -> Seq<(Seq<char>, YValue)> {
        mapping_entries(*self)
    }

    fn len(&self) -> (n: usize) {
        mapping_len(self)
    }

    /// The entries that stay keep their order.
    fn remove(&mut self, key: &str) -> (r: Option<YValue>)
        ensures
            ({
                let before = old(self).entries();
                let i = key_index(before, key@);
                if i < before.len() {
                    r == Some(before[i].1) && final(self).entries() == before.remove(i)
                } else {
                    r is None && final(self).entries() == before
                }
            }),
    {
        proof {
            lemma_key_index(self.entries(), key@);
        }
        mapping_remove(self, key)
    }

    fn into_iter(self) -> (it: YMapIter) {
        YMapIter { iter: mapping_into_iter(self) }
    }
}

impl Native for YValue {
    type Sequence = Vec<YValue>;

    type Mapping = YMap;

    open spec fn tree(&self) -> Tree {
        canon(yaml_model(*self))
    }
}

impl IntoValue for YValue {
    /// A number is an `Integer` if it is a whole number that is not
    /// negative, else a `NegativeInteger` if it is a whole number, else a
    /// `Float`. A tagged value is of the kind of the value inside the tag.
    fn kind(&self) -> (k: ValueKind)
        decreases yaml_model(*self),
    {
        match glance_at(self) {
            Glance::Null => ValueKind::Null,
            Glance::Bool => ValueKind::Boolean,
            Glance::Number(n) => {
                if n.is_u64() {
                    ValueKind::Integer
                } else if n.is_i64() {
                    ValueKind::NegativeInteger
                } else if n.is_f64() {
                    ValueKind::Float
                } else {
                    unreached()
                }
            },
            Glance::String => ValueKind::String,
            Glance::Sequence => ValueKind::Sequence,
            Glance::Mapping => ValueKind::Mapping,
            Glance::Tagged(inner) => inner.kind(),
        }
    }

    /// The children of a container stay as they are. A tagged value opens
    /// as the value inside the tag does.
    fn into_value(self) -> (v: Value<YValue>)
        ensures
            level_model(v) == untagged(yaml_model(self)),
            v matches Value::Integer(n) ==> n <= i64::MAX,
            v matches Value::NegativeInteger(n) ==> n < 0,
        decreases yaml_model(self),
    {
        match open_value(self) {
            Node::Plain(Plain::Null) => Value::Null,
            Node::Plain(Plain::Bool(b)) => Value::Boolean(b),
            Node::Plain(Plain::Number(n)) => {
                if let Some(n) = n.as_u64() {
                    Value::Integer(n)
                } else if let Some(n) = n.as_i64() {
                    Value::NegativeInteger(n)
                } else if let Some(n) = Float::new(n) {
                    Value::Float(n)
                } else {
                    unreached()
                }
            },
            Node::Plain(Plain::String(s)) => Value::String(s),
            Node::Plain(Plain::Sequence(items)) => {
                assert(item_trees(items@) =~= canon(yaml_model(self))->Sequence_0);
                Value::Sequence(items)
            },
            Node::Plain(Plain::Mapping(map)) => {
                assert(entry_trees(mapping_entries(map)) =~= canon(
                    yaml_model(self),
                )->Mapping_0);
                Value::Mapping(map)
            },
            Node::Tagged(inner) => inner.into_value(),
        }
    }
}

} // verus!
