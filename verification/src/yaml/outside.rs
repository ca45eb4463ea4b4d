//! The trusted items of the adapter.
//!
//! Verus sees nothing inside a value of `serde_yml`. What such a value
//! holds has a name here, and each function that looks inside one, or makes
//! one, says over those names what the source of `serde_yml` shows. Nothing
//! in this file is proved.

use crate::float::{number_model, Num};
use crate::value::{collected, key_index, put};
use crate::yaml::model::{entry_models, item_models, Yaml};
use serde_yml::{Mapping as YMap, Number as YNumber, Value as YValue};
use vstd::prelude::*;

verus! {

/// `serde_yml::Value`, a YAML value.
#[verifier::external_type_specification]
#[verifier::external_body]
pub struct ExYamlValue(YValue);

/// `serde_yml::Mapping`, a YAML map: text keys in the order of their
/// insertion.
#[verifier::external_type_specification]
#[verifier::external_body]
pub struct ExYamlMapping(YMap);

/// `indexmap::map::IntoIter`, the iterator that `Mapping::into_iter` gives.
#[verifier::external_type_specification]
#[verifier::external_body]
#[verifier::reject_recursive_types(K)]
#[verifier::reject_recursive_types(V)]
pub struct ExEntries<K, V>(indexmap::map::IntoIter<K, V>);

/// What `value` holds.
pub uninterp spec fn yaml_model(value: YValue) -> Yaml;

/// The entries of `map`, in the order of their insertion.
pub uninterp spec fn mapping_entries(map: YMap) -> Seq<(Seq<char>, YValue)>;

/// The entries that `iter` has not handed out yet, next one first.
pub uninterp spec fn entries_left(iter: indexmap::map::IntoIter<String, YValue>) -> Seq<
    (Seq<char>, YValue),
>;

/// The bit pattern of the binary64 number that a YAML number stores for a
/// whole number above the largest `i64`.
pub uninterp spec fn widened_bits(v: u64) -> u64;

/// One level of a YAML value that carries no tag.
pub(crate) enum Plain {
    Null,
    Bool(bool),
    Number(YNumber),
    String(String),
    Sequence(Vec<YValue>),
    Mapping(YMap),
}

impl Plain {
    pub(crate) open spec fn model(self) -> Yaml {
        match self {
            Plain::Null => Yaml::Null,
            Plain::Bool(b) => Yaml::Bool(b),
            Plain::Number(n) => Yaml::Number(number_model(n)),
            Plain::String(s) => Yaml::String(s@),
            Plain::Sequence(items) => Yaml::Sequence(item_models(items@)),
            Plain::Mapping(map) => Yaml::Mapping(entry_models(mapping_entries(map))),
        }
    }
}

/// One level of a YAML value: a plain node, or the value inside a tag.
pub(crate) enum Node {
    Plain(Plain),
    Tagged(YValue),
}

impl Node {
    pub(crate) open spec fn model(self) -> Yaml {
        match self {
            Node::Plain(plain) => plain.model(),
            Node::Tagged(inner) => Yaml::Tagged(Box::new(yaml_model(inner))),
        }
    }
}

/// One level of a borrowed YAML value, as far as classifying it needs.
pub(crate) enum Glance<'a> {
    Null,
    Bool,
    Number(YNumber),
    String,
    Sequence,
    Mapping,
    Tagged(&'a YValue),
}

impl<'a> Glance<'a> {
    /// Whether this is the outermost level of `yaml`.
    pub(crate) open spec fn shows(self, yaml: Yaml) -> bool {
        match self {
            Glance::Null => yaml is Null,
            Glance::Bool => yaml is Bool,
            Glance::Number(n) => yaml == Yaml::Number(number_model(n)),
            Glance::String => yaml is String,
            Glance::Sequence => yaml is Sequence,
            Glance::Mapping => yaml is Mapping,
            Glance::Tagged(inner) => yaml == Yaml::Tagged(Box::new(yaml_model(*inner))),
        }
    }
}

/// Takes a `serde_yml::Value` apart by one level, variant by variant. The
/// value inside `Tagged` is the one that `TaggedValue::into_parts` gives.
#[verifier::external_body]
pub(crate) fn open_value(value: YValue) -> (node: Node)
    ensures
        node.model() == yaml_model(value),
{
    match value {
        YValue::Null => Node::Plain(Plain::Null),
        YValue::Bool(b) => Node::Plain(Plain::Bool(b)),
        YValue::Number(n) => Node::Plain(Plain::Number(n)),
        YValue::String(s) => Node::Plain(Plain::String(s)),
        YValue::Sequence(items) => Node::Plain(Plain::Sequence(items)),
        YValue::Mapping(map) => Node::Plain(Plain::Mapping(map)),
        YValue::Tagged(tagged) => Node::Tagged(tagged.into_parts().1),
    }
}

/// Tells the variants of a borrowed `serde_yml::Value` apart. The value
/// inside `Tagged` is the one that `TaggedValue::value` gives.
#[verifier::external_body]
pub(crate) fn glance_at<'a>(value: &'a YValue) -> (glance: Glance<'a>)
    ensures
        glance.shows(yaml_model(*value)),
{
    match value {
        YValue::Null => Glance::Null,
        YValue::Bool(_) => Glance::Bool,
        YValue::Number(n) => Glance::Number(*n),
        YValue::String(_) => Glance::String,
        YValue::Sequence(_) => Glance::Sequence,
        YValue::Mapping(_) => Glance::Mapping,
        YValue::Tagged(tagged) => Glance::Tagged(tagged.value()),
    }
}

/// Makes the `serde_yml::Value` of the variant that `plain` names, with the
/// same contents.
#[verifier::external_body]
pub(crate) fn close_value(plain: Plain) -> (value: YValue)
    ensures
        yaml_model(value) == plain.model(),
{
    match plain {
        Plain::Null => YValue::Null,
        Plain::Bool(b) => YValue::Bool(b),
        Plain::Number(n) => YValue::Number(n),
        Plain::String(s) => YValue::String(s),
        Plain::Sequence(items) => YValue::Sequence(items),
        Plain::Mapping(map) => YValue::Mapping(map),
    }
}

/// `Number::is_u64`: true of a whole number that is not negative.
pub assume_specification[ YNumber::is_u64 ](number: &YNumber) -> (b: bool)
    ensures
        b == (number_model(*number) matches Num::Integer(n) && n >= 0),
;

/// `Number::is_i64`: true of every whole number.
pub assume_specification[ YNumber::is_i64 ](number: &YNumber) -> (b: bool)
    ensures
        b == (number_model(*number) is Integer),
;

/// `Number::is_f64`: true of every number.
pub assume_specification[ YNumber::is_f64 ](number: &YNumber) -> (b: bool)
    ensures
        b,
;

/// `Number::as_u64`: a whole number that is not negative, as it is.
pub assume_specification[ YNumber::as_u64 ](number: &YNumber) -> (r: Option<
    u64,
>)
    ensures
        r == match number_model(*number) {
            Num::Integer(n) => if n >= 0 {
                Some(n as u64)
            } else {
                None
            },
            Num::Float(_) => None,
        },
;

/// `Number::as_i64`: a whole number, as it is.
pub assume_specification[ YNumber::as_i64 ](number: &YNumber) -> (r: Option<
    i64,
>)
    ensures
        r == match number_model(*number) {
            Num::Integer(n) => Some(n),
            Num::Float(_) => None,
        },
;

/// `Number::from` of a `u64`: the whole number where an `i64` can hold it,
/// else a binary64 number.
pub assume_specification[ <YNumber as From<u64>>::from ](v: u64) -> (number: YNumber)
    ensures
        number_model(number) == if v <= i64::MAX {
            Num::Integer(v as i64)
        } else {
            Num::Float(widened_bits(v))
        },
;

/// `Number::from` of an `i64`: that whole number.
pub assume_specification[ <YNumber as From<i64>>::from ](v: i64) -> (number: YNumber)
    ensures
        number_model(number) == Num::Integer(v),
;

/// `Mapping::new`: a map without entries.
pub assume_specification[ YMap::new ]() -> (map: YMap)
    ensures
        mapping_entries(map) == Seq::<(Seq<char>, YValue)>::empty(),
;

/// `Mapping::insert`: the value of an entry that is there is replaced, in
/// its place, and handed back; a new entry comes last.
#[verifier::external_body]
pub(crate) fn mapping_insert(map: &mut YMap, key: String, value: YValue) -> (replaced: Option<
    YValue,
>)
    ensures
        mapping_entries(*final(map)) == put(mapping_entries(*old(map)), key@, value),
        replaced == ({
            let before = mapping_entries(*old(map));
            let i = key_index(before, key@);
            if i < before.len() {
                Some(before[i].1)
            } else {
                None
            }
        }),
{
    map.insert(key, value)
}

/// `Mapping::len`: the number of entries.
#[verifier::external_body]
pub(crate) fn mapping_len(map: &YMap) -> (n: usize)
    ensures
        n == mapping_entries(*map).len(),
{
    map.len()
}

/// `Mapping::remove`: the entry under `key` leaves, the others keep their
/// order.
#[verifier::external_body]
pub(crate) fn mapping_remove(map: &mut YMap, key: &str) -> (removed: Option<YValue>)
    ensures
        ({
            let before = mapping_entries(*old(map));
            let i = key_index(before, key@);
            if i < before.len() {
                removed == Some(before[i].1) && mapping_entries(*final(map)) == before.remove(i)
            } else {
                removed is None && mapping_entries(*final(map)) == before
            }
        }),
{
    map.remove(key)
}

/// `Mapping::into_iter`: an iterator over the entries, in their order.
#[verifier::external_body]
pub(crate) fn mapping_into_iter(map: YMap) -> (iter: indexmap::map::IntoIter<String, YValue>)
    ensures
        entries_left(iter) == mapping_entries(map),
{
    IntoIterator::into_iter(map)
}

/// `Iterator::next` of `indexmap::map::IntoIter`: the first entry that is
/// left, or `None` when none is.
#[verifier::external_body]
pub(crate) fn next_entry(iter: &mut indexmap::map::IntoIter<String, YValue>) -> (entry: Option<
    (String, YValue),
>)
    ensures
        match entry {
            Some(e) => {
                &&& entries_left(*old(iter)).len() > 0
                &&& (e.0@, e.1) == entries_left(*old(iter))[0]
                &&& entries_left(*final(iter)) == entries_left(*old(iter)).drop_first()
            },
            None => entries_left(*old(iter)).len() == 0 && entries_left(*final(iter)).len() == 0,
        },
{
    iter.next()
}

/// The keys and values of a list of entries.
pub open spec fn pair_views(pairs: Seq<(String, YValue)>) -> Seq<(Seq<char>, YValue)> {
    Seq::new(pairs.len(), |i: int| (pairs[i].0@, pairs[i].1))
}

/// `Mapping::from_iter` of a list of entries: the map that takes them one
/// after the other, as `insert` does.
#[verifier::external_body]
pub(crate) fn mapping_from_entries(pairs: Vec<(String, YValue)>) -> (map: YMap)
    ensures
        mapping_entries(map) == collected(pair_views(pairs@)),
{
    YMap::from_iter(pairs)
}

} // verus!
