//! What a YAML value holds, and the document that it stands for.

use crate::float::Num;
use crate::value::{collected, Tree, Value};
use crate::yaml::outside::{mapping_entries, widened_bits, yaml_model};
use serde_yml::Value as YValue;
use vstd::prelude::*;

verus! {

/// What a YAML value holds. The name of a tag is left out.
pub enum Yaml {
    Null,
    Bool(bool),
    Number(Num),
    String(Seq<char>),
    Sequence(Seq<Yaml>),
    Mapping(Seq<(Seq<char>, Yaml)>),
    Tagged(Box<Yaml>),
}

/// What the values of a sequence hold.
pub open spec fn item_models(items: Seq<YValue>) -> Seq<Yaml> {
    Seq::new(items.len(), |i: int| yaml_model(items[i]))
}

/// The keys of the entries of a map, and what their values hold.
pub open spec fn entry_models(entries: Seq<(Seq<char>, YValue)>) -> Seq<
    (Seq<char>, Yaml),
> {
    Seq::new(entries.len(), |i: int| (entries[i].0, yaml_model(entries[i].1)))
}

/// The document that a YAML value stands for: a whole number is classed by
/// its sign, and a tag is left out.
pub open spec fn canon(yaml: Yaml) -> Tree
    decreases yaml,
{
    match yaml {
        Yaml::Null => Tree::Null,
        Yaml::Bool(b) => Tree::Boolean(b),
        Yaml::Number(Num::Integer(n)) => if n >= 0 {
            Tree::Integer(n as u64)
        } else {
            Tree::NegativeInteger(n)
        },
        Yaml::Number(Num::Float(bits)) => Tree::Float(bits),
        Yaml::String(s) => Tree::String(s),
        Yaml::Sequence(items) => Tree::Sequence(
            Seq::new(
                items.len(),
                |i: int|
                    if 0 <= i < items.len() {
                        canon(items[i])
                    } else {
                        Tree::Null
                    },
            ),
        ),
        Yaml::Mapping(entries) => Tree::Mapping(
            Seq::new(
                entries.len(),
                |i: int|
                    if 0 <= i < entries.len() {
                        (entries[i].0, canon(entries[i].1))
                    } else {
                        (Seq::empty(), Tree::Null)
                    },
            ),
        ),
        Yaml::Tagged(inner) => canon(*inner),
    }
}

/// A YAML document without the tags around it.
pub open spec fn untagged(yaml: Yaml) -> Yaml
    decreases yaml,
{
    match yaml {
        Yaml::Tagged(inner) => untagged(*inner),
        _ => yaml,
    }
}

/// What one level over YAML children holds.
pub open spec fn level_model(value: Value<YValue>) -> Yaml {
    match value {
        Value::Null => Yaml::Null,
        Value::Boolean(b) => Yaml::Bool(b),
        Value::Integer(n) => Yaml::Number(Num::Integer(n as i64)),
        Value::NegativeInteger(n) => Yaml::Number(Num::Integer(n)),
        Value::Float(f) => Yaml::Number(Num::Float(f.bits())),
        Value::String(s) => Yaml::String(s@),
        Value::Sequence(items) => Yaml::Sequence(item_models(items@)),
        Value::Mapping(map) => Yaml::Mapping(entry_models(mapping_entries(map))),
    }
}

/// What a YAML number holds that was made from a `u64`: the whole number
/// where an `i64` can hold it, else a binary64 number near it.
pub open spec fn number_of_u64(n: u64) -> Num {
    if n <= i64::MAX {
        Num::Integer(n as i64)
    } else {
        Num::Float(widened_bits(n))
    }
}

/// What the YAML value built from the document `tree` holds.
pub open spec fn rebuilt(tree: Tree) -> Yaml
    decreases tree,
{
    match tree {
        Tree::Null => Yaml::Null,
        Tree::Boolean(b) => Yaml::Bool(b),
        Tree::Integer(n) => Yaml::Number(number_of_u64(n)),
        Tree::NegativeInteger(n) => Yaml::Number(Num::Integer(n)),
        Tree::Float(bits) => Yaml::Number(Num::Float(bits)),
        Tree::String(s) => Yaml::String(s),
        Tree::Sequence(items) => Yaml::Sequence(rebuilt_items(items)),
        Tree::Mapping(entries) => Yaml::Mapping(collected(rebuilt_entries(entries))),
    }
}

/// What the YAML values built from the elements of a sequence hold.
pub open spec fn rebuilt_items(items: Seq<Tree>) -> Seq<Yaml>
    decreases items,
{
    Seq::new(
        items.len(),
        |i: int|
            if 0 <= i < items.len() {
                rebuilt(items[i])
            } else {
                Yaml::Null
            },
    )
}

/// The keys of the entries of a map, and what the YAML values built from
/// their values hold.
pub open spec fn rebuilt_entries(entries: Seq<(Seq<char>, Tree)>) -> Seq<(Seq<char>, Yaml)>
    decreases entries,
{
    Seq::new(
        entries.len(),
        |i: int|
            if 0 <= i < entries.len() {
                (entries[i].0, rebuilt(entries[i].1))
            } else {
                (Seq::empty(), Yaml::Null)
            },
    )
}

} // verus!
