//! Binary64 numbers, carried but never computed with.
//!
//! A document may hold floating-point numbers, and verified code cannot
//! compute with them. A [`Float`] therefore carries one inside the
//! `serde_yml::Number` that it came in; contracts speak of it by its bit
//! pattern.

use serde_yml::Number as YNumber;
use vstd::prelude::*;

verus! {

/// `serde_yml::Number`, a YAML number.
#[verifier::external_type_specification]
#[verifier::external_body]
pub struct ExYamlNumber(YNumber);

/// What a YAML number holds: a whole number, or the bit pattern of a
/// binary64 number.
pub enum Num {
    Integer(i64),
    Float(u64),
}

/// What `number` holds.
pub uninterp spec fn number_model(number: YNumber) -> Num;

/// `Number::is_float`: true of a number that holds a binary64 number.
pub assume_specification[ YNumber::is_float ](number: &YNumber) -> (b: bool)
    ensures
        b == (number_model(*number) is Float),
;

/// A binary64 number.
#[derive(Clone, Copy, Debug, PartialEq)]
pub struct Float {
    number: YNumber,
}

impl Float {
    #[verifier::type_invariant]
    spec fn holds_binary64(self) -> bool {
        number_model(self.number) is Float
    }

    /// The bit pattern of the number.
    pub closed spec fn bits(self) -> u64 {
        number_model(self.number)->Float_0
    }

    /// The binary64 number that `number` holds, if it holds one.
    pub fn new(number: YNumber) -> (float: Option<Float>)
        ensures
            float matches Some(f) ==> number_model(number) == Num::Float(f.bits()),
            float is Some <==> number_model(number) is Float,
    {
        if number.is_float() {
            Some(Float { number })
        } else {
            None
        }
    }

    /// The number, as a YAML number.
    pub fn into_number(self) -> (number: YNumber)
        ensures
            number_model(number) == Num::Float(self.bits()),
    {
        proof {
            use_type_invariant(&self);
        }
        self.number
    }
}

} // verus!
