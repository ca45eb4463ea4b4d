//! The format-independent value model.
//!
//! A format adapter exposes its own value type one level at a time as a
//! [`Value`]; the children of a container stay in the adapter's type until
//! the traversal descends into them. Contracts speak of the whole document
//! through [`Tree`], the mathematical tree that a native value stands for.

use crate::float::Float;
use vstd::prelude::*;

verus! {

/// The tag of a canonical value, without its contents.
#[derive(Clone, Copy, Debug, PartialEq, Eq, Structural)]
pub enum ValueKind {
    Null,
    Boolean,
    Integer,
    NegativeInteger,
    Float,
    String,
    Sequence,
    Mapping,
}

/// A whole document as a mathematical tree.
///
/// A floating-point number is held by the bit pattern of its IEEE 754
/// binary64 form.
pub enum Tree {
    Null,
    Boolean(bool),
    Integer(u64),
    NegativeInteger(i64),
    Float(u64),
    String(Seq<char>),
    Sequence(Seq<Tree>),
    Mapping(Seq<(Seq<char>, Tree)>),
}

impl Tree {
    /// The tag of the root node.
    pub open spec fn kind(self) -> ValueKind {
        match self {
            Tree::Null => ValueKind::Null,
            Tree::Boolean(_) => ValueKind::Boolean,
            Tree::Integer(_) => ValueKind::Integer,
            Tree::NegativeInteger(_) => ValueKind::NegativeInteger,
            Tree::Float(_) => ValueKind::Float,
            Tree::String(_) => ValueKind::String,
            Tree::Sequence(_) => ValueKind::Sequence,
            Tree::Mapping(_) => ValueKind::Mapping,
        }
    }
}

/// An ordered, finite collection of native values.
pub trait Sequence: Sized {
    type Value;

    /// The elements, first one first.
    spec fn items(&self) -> Seq<Self::Value>;

    fn len(&self) -> (n: usize)
        ensures
            n == self.items().len(),
    ;

    /// Hands the elements out, first one first.
    fn into_vec(self) -> (v: Vec<Self::Value>)
        ensures
            v@ == self.items(),
    ;
}

/// The entries of a native map, handed out one at a time.
pub trait MapIter: Sized {
    type Value;

    /// The entries not yet handed out, next one first.
    spec fn remaining(&self) -> Seq<(Seq<char>, Self::Value)>;

    fn next(&mut self) -> (r: Option<(String, Self::Value)>)
        ensures
            match r {
                Some(entry) => {
                    &&& old(self).remaining().len() > 0
                    &&& (entry.0@, entry.1) == old(self).remaining()[0]
                    &&& final(self).remaining() == old(self).remaining().drop_first()
                },
                None => old(self).remaining().len() == 0,
            },
    ;
}

/// A native map from text keys to native values.
pub trait Mapping: Sized {
    type Value;

    type Iter: MapIter<Value = Self::Value>;

    /// The entries, in the order in which `into_iter` hands them out.
    spec fn entries(&self) -> Seq<(Seq<char>, Self::Value)>;

    fn len(&self) -> (n: usize)
        ensures
            n == self.entries().len(),
    ;

    /// Takes the value under `key` out of the map. The entries left are
    /// those that were there before, in an order that the map chooses.
    fn remove(&mut self, key: &str) -> (r: Option<Self::Value>)
        ensures
            match r {
                Some(value) => exists|i: int|
                    {
                        &&& 0 <= i < old(self).entries().len()
                        &&& #[trigger] old(self).entries()[i] == (key@, value)
                        &&& final(self).entries().to_multiset() == old(self).entries().remove(
                            i,
                        ).to_multiset()
                    },
                None => {
                    &&& !has_key(old(self).entries(), key@)
                    &&& final(self).entries() == old(self).entries()
                },
            },
    ;

    fn into_iter(self) -> (it: Self::Iter)
        ensures
            it.remaining() == self.entries(),
    ;
}

/// Whether some entry of `entries` stands under `key`.
pub open spec fn has_key<V>(entries: Seq<(Seq<char>, V)>, key: Seq<char>) -> bool {
    exists|i: int| 0 <= i < entries.len() && (#[trigger] entries[i]).0 == key
}

/// The place of the first entry of `entries` under `key`; the number of
/// entries where none stands under it.
pub open spec fn key_index<V>(entries: Seq<(Seq<char>, V)>, key: Seq<char>) -> int
    decreases entries.len(),
{
    if entries.len() == 0 {
        0
    } else if entries[0].0 == key {
        0
    } else {
        1 + key_index(entries.drop_first(), key)
    }
}

/// `key_index` gives the first entry under `key`: it stays within the
/// entries, the entry that it points at stands under `key`, and none before
/// it does.
pub proof fn lemma_key_index<V>(entries: Seq<(Seq<char>, V)>, key: Seq<char>)
    ensures
        0 <= key_index(entries, key) <= entries.len(),
        key_index(entries, key) < entries.len() ==> entries[key_index(entries, key)].0 == key,
        forall|j: int| 0 <= j < key_index(entries, key) ==> (#[trigger] entries[j]).0 != key,
        has_key(entries, key) <==> key_index(entries, key) < entries.len(),
    decreases entries.len(),
{
    if entries.len() > 0 && entries[0].0 != key {
        let rest = entries.drop_first();
        lemma_key_index(rest, key);
        assert forall|j: int| 0 <= j < key_index(entries, key) implies (#[trigger] entries[j]).0
            != key by {
            if j > 0 {
                assert(entries[j] == rest[j - 1]);
            }
        }
    }
}

/// The entries after `value` was put under `key`: in the place of the entry
/// that stood under `key`, or last where none did.
pub open spec fn put<V>(entries: Seq<(Seq<char>, V)>, key: Seq<char>, value: V) -> Seq<
    (Seq<char>, V),
> {
    let i = key_index(entries, key);
    if i < entries.len() {
        entries.update(i, (key, value))
    } else {
        entries.push((key, value))
    }
}

/// The entries of the map that takes `pairs` one after the other, each put
/// under its key.
pub open spec fn collected<V>(pairs: Seq<(Seq<char>, V)>) -> Seq<(Seq<char>, V)>
    decreases pairs.len(),
{
    if pairs.len() == 0 {
        Seq::empty()
    } else {
        put(collected(pairs.drop_last()), pairs.last().0, pairs.last().1)
    }
}

/// A value type of some format, with the tree that each value stands for.
pub trait Native: Sized {
    type Sequence: Sequence<Value = Self>;

    type Mapping: Mapping<Value = Self>;

    /// The document below this value.
    spec fn tree(&self) -> Tree;
}

/// What a format adapter offers: it classifies a node, and opens it by one
/// level.
pub trait IntoValue: Native {
    /// The tag of the node, which stays as it is.
    fn kind(&self) -> (k: ValueKind)
        ensures
            k == self.tree().kind(),
    ;

    /// One level of the node; the children of a container stay native.
    fn into_value(self) -> (v: Value<Self>)
        ensures
            v.tree() == self.tree(),
    ;
}

/// One level of a document: a scalar, or a container whose children are
/// still native values.
#[derive(Debug)]
pub enum Value<V: Native> {
    Null,
    Boolean(bool),
    Integer(u64),
    NegativeInteger(i64),
    Float(Float),
    String(String),
    Sequence(V::Sequence),
    Mapping(V::Mapping),
}

/// The trees of a sequence of native values.
pub open spec fn item_trees<V: Native>(items: Seq<V>) -> Seq<Tree> {
    Seq::new(items.len(), |i: int| items[i].tree())
}

/// The keys and trees of the entries of a native map.
pub open spec fn entry_trees<V: Native>(entries: Seq<(Seq<char>, V)>) -> Seq<(Seq<char>, Tree)> {
    Seq::new(entries.len(), |i: int| (entries[i].0, entries[i].1.tree()))
}

/// An element of a sequence is a smaller document than the sequence.
pub proof fn lemma_element_smaller(whole: Tree, i: int)
    requires
        whole is Sequence,
        0 <= i < whole->Sequence_0.len(),
    ensures
        decreases_to!(whole => whole->Sequence_0[i]),
{
    broadcast use vstd::seq::axiom_seq_index_decreases;

}

/// The value of an entry of a map is a smaller document than the map.
pub proof fn lemma_entry_smaller(whole: Tree, i: int)
    requires
        whole is Mapping,
        0 <= i < whole->Mapping_0.len(),
    ensures
        decreases_to!(whole => whole->Mapping_0[i].1),
{
    broadcast use vstd::seq::axiom_seq_index_decreases;

}

impl<V: Native> Value<V> {
    /// The document below this node.
    pub open spec fn tree(&self) -> Tree {
        match self {
            Value::Null => Tree::Null,
            Value::Boolean(b) => Tree::Boolean(*b),
            Value::Integer(n) => Tree::Integer(*n),
            Value::NegativeInteger(n) => Tree::NegativeInteger(*n),
            Value::Float(f) => Tree::Float(f.bits()),
            Value::String(s) => Tree::String(s@),
            Value::Sequence(s) => Tree::Sequence(item_trees(s.items())),
            Value::Mapping(m) => Tree::Mapping(entry_trees(m.entries())),
        }
    }

    /// The tag of this node.
    pub fn kind(&self) -> (k: ValueKind)
        ensures
            k == self.tree().kind(),
    {
        match self {
            Value::Null => ValueKind::Null,
            Value::Boolean(_) => ValueKind::Boolean,
            Value::Integer(_) => ValueKind::Integer,
            Value::NegativeInteger(_) => ValueKind::NegativeInteger,
            Value::Float(_) => ValueKind::Float,
            Value::String(_) => ValueKind::String,
            Value::Sequence(_) => ValueKind::Sequence,
            Value::Mapping(_) => ValueKind::Mapping,
        }
    }
}

impl<T> Sequence for Vec<T> {
    type Value = T;

    open spec fn items(&self) -> Seq<T> {
        self@
    }

    fn len(&self) -> (n: usize) {
        Vec::len(self)
    }

    fn into_vec(self) -> (v: Vec<T>) {
        self
    }
}

} // verus!
