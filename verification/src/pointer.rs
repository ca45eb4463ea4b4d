//! Where in a document a node stands.
//!
//! While the traversal descends it extends a [`ValuePointerRef`], a chain of
//! borrowed steps that costs no allocation. Only an error that must outlive
//! the descent takes an owned copy, a [`ValuePointer`], and only a report
//! renders one as text.

use vstd::prelude::*;
use vstd::string::StringExecFns;

verus! {

/// One step from a container to one of its children.
pub enum Step {
    Key(Seq<char>),
    Index(nat),
}

/// The decimal digit that stands for `d`, for `d` below ten.
pub open spec fn digit_char(d: nat) -> char {
    if d == 0 {
        '0'
    } else if d == 1 {
        '1'
    } else if d == 2 {
        '2'
    } else if d == 3 {
        '3'
    } else if d == 4 {
        '4'
    } else if d == 5 {
        '5'
    } else if d == 6 {
        '6'
    } else if d == 7 {
        '7'
    } else if d == 8 {
        '8'
    } else {
        '9'
    }
}

/// `n` in decimal, without leading zeros.
pub open spec fn decimal(n: nat) -> Seq<char>
    decreases n,
{
    if n < 10 {
        seq![digit_char(n)]
    } else {
        decimal(n / 10).push(digit_char(n % 10))
    }
}

/// A step as text: a slash, then the key as it is or the index in decimal.
pub open spec fn render_step(step: Step) -> Seq<char> {
    match step {
        Step::Key(key) => seq!['/'] + key,
        Step::Index(index) => seq!['/'] + decimal(index),
    }
}

/// A path as text: its steps one after the other; nothing for the root.
pub open spec fn render(path: Seq<Step>) -> Seq<char>
    decreases path.len(),
{
    if path.len() == 0 {
        Seq::empty()
    } else {
        render(path.drop_last()) + render_step(path.last())
    }
}

fn digit_str(d: usize) -> (s: &'static str)
    requires
        d < 10,
    ensures
        s@ == seq![digit_char(d as nat)],
{
    proof {
        reveal_strlit("0");
        reveal_strlit("1");
        reveal_strlit("2");
        reveal_strlit("3");
        reveal_strlit("4");
        reveal_strlit("5");
        reveal_strlit("6");
        reveal_strlit("7");
        reveal_strlit("8");
        reveal_strlit("9");
    }
    let s = if d == 0 {
        "0"
    } else if d == 1 {
        "1"
    } else if d == 2 {
        "2"
    } else if d == 3 {
        "3"
    } else if d == 4 {
        "4"
    } else if d == 5 {
        "5"
    } else if d == 6 {
        "6"
    } else if d == 7 {
        "7"
    } else if d == 8 {
        "8"
    } else {
        "9"
    };
    s
}

fn push_decimal(out: &mut String, n: usize)
    ensures
        final(out)@ == old(out)@ + decimal(n as nat),
    decreases n,
{
    if n >= 10 {
        push_decimal(out, n / 10);
    }
    out.append(digit_str(n % 10));
}

fn push_slash(out: &mut String)
    ensures
        final(out)@ == old(out)@ + seq!['/'],
{
    proof {
        reveal_strlit("/");
    }
    out.append("/");
}

/// A path from the root, built while descending: the root, or a parent and
/// one more step.
#[derive(Clone, Copy, Debug)]
pub enum ValuePointerRef<'a> {
    Origin,
    Key { key: &'a str, prev: &'a ValuePointerRef<'a> },
    Index { index: usize, prev: &'a ValuePointerRef<'a> },
}

/// The steps of a borrowed path from the root, first step first.
pub open spec fn steps_of(pointer: ValuePointerRef<'_>) -> Seq<Step>
    decreases pointer,
{
    match pointer {
        ValuePointerRef::Origin => Seq::empty(),
        ValuePointerRef::Key { key, prev } => steps_of(*prev).push(Step::Key(key@)),
        ValuePointerRef::Index { index, prev } => steps_of(*prev).push(Step::Index(index as nat)),
    }
}

impl<'a> View for ValuePointerRef<'a> {
    type V = Seq<Step>;

    open spec fn view(&self) -> Seq<Step> {
        steps_of(*self)
    }
}

impl<'a> ValuePointerRef<'a> {
    /// The path to the child under `key`.
    pub fn push_key(&'a self, key: &'a str) -> (p: ValuePointerRef<'a>)
        ensures
            p@ == self@.push(Step::Key(key@)),
    {
        ValuePointerRef::Key { key, prev: self }
    }

    /// The path to the child at `index`.
    pub fn push_index(&'a self, index: usize) -> (p: ValuePointerRef<'a>)
        ensures
            p@ == self@.push(Step::Index(index as nat)),
    {
        ValuePointerRef::Index { index, prev: self }
    }

    pub fn is_origin(&self) -> (b: bool)
        ensures
            b == (self@.len() == 0),
    {
        match self {
            ValuePointerRef::Origin => true,
            _ => false,
        }
    }

    /// An owned copy of the path.
    pub fn to_owned(&self) -> (p: ValuePointer)
        ensures
            p@ == self@,
        decreases self,
    {
        match self {
            ValuePointerRef::Origin => ValuePointer::origin(),
            ValuePointerRef::Key { key, prev } => {
                let mut p = ValuePointerRef::to_owned(prev);
                p.push_key(key);
                p
            },
            ValuePointerRef::Index { index, prev } => {
                let mut p = ValuePointerRef::to_owned(prev);
                p.push_index(*index);
                p
            },
        }
    }

    /// The path as text, such as `/a/0/b`; the root is the empty text.
    pub fn to_printable(&self) -> (s: String)
        ensures
            s@ == render(self@),
        decreases self,
    {
        match self {
            ValuePointerRef::Origin => String::new(),
            ValuePointerRef::Key { key, prev } => {
                let mut s = ValuePointerRef::to_printable(prev);
                push_slash(&mut s);
                s.append(key);
                proof {
                    assert(self@.drop_last() =~= prev@);
                }
                s
            },
            ValuePointerRef::Index { index, prev } => {
                let mut s = ValuePointerRef::to_printable(prev);
                push_slash(&mut s);
                push_decimal(&mut s, *index);
                proof {
                    assert(self@.drop_last() =~= prev@);
                }
                s
            },
        }
    }
}

/// One owned step of a path.
#[derive(Clone, Debug, PartialEq, Eq)]
pub enum PathStep {
    Key(String),
    Index(usize),
}

impl View for PathStep {
    type V = Step;

    open spec fn view(&self) -> Step {
        match self {
            PathStep::Key(key) => Step::Key(key@),
            PathStep::Index(index) => Step::Index(*index as nat),
        }
    }
}

/// An owned path from the root.
#[derive(Clone, Debug, PartialEq, Eq)]
pub struct ValuePointer {
    pub steps: Vec<PathStep>,
}

impl View for ValuePointer {
    type V = Seq<Step>;

    open spec fn view(&self) -> Seq<Step> {
        Seq::new(self.steps@.len(), |i: int| self.steps@[i]@)
    }
}

impl ValuePointer {
    /// The path of the root.
    pub fn origin() -> (p: ValuePointer)
        ensures
            p@ == Seq::<Step>::empty(),
    {
        let p = ValuePointer { steps: Vec::new() };
        p
    }

    /// Extends the path by the step to the child under `key`.
    pub fn push_key(&mut self, key: &str)
        ensures
            final(self)@ == old(self)@.push(Step::Key(key@)),
    {
        self.steps.push(PathStep::Key(key.to_owned()));
    }

    /// Extends the path by the step to the child at `index`.
    pub fn push_index(&mut self, index: usize)
        ensures
            final(self)@ == old(self)@.push(Step::Index(index as nat)),
    {
        self.steps.push(PathStep::Index(index));
    }

    /// The path as text, such as `/a/0/b`; the root is the empty text.
    pub fn to_printable(&self) -> (s: String)
        ensures
            s@ == render(self@),
    {
        let mut s = String::new();
        let mut i: usize = 0;
        while i < self.steps.len()
            invariant
                i <= self.steps@.len(),
                s@ == render(self@.take(i as int)),
            decreases self.steps@.len() - i,
        {
            push_slash(&mut s);
            match &self.steps[i] {
                PathStep::Key(key) => {
                    s.append(key.as_str());
                },
                PathStep::Index(index) => {
                    push_decimal(&mut s, *index);
                },
            }
            proof {
                let next = self@.take(i + 1);
                assert(next.drop_last() =~= self@.take(i as int));
            }
            i += 1;
        }
        assert(self@.take(i as int) =~= self@);
        s
    }
}

} // verus!
