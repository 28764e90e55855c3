//! Values the kcwiki JSON writes either as a flag or as a number or text.
use vstd::prelude::*;

verus! {

#[derive(Debug, Clone, PartialEq)]
pub enum BoolOrString {
    Bool(bool),
    String(String),
}

#[derive(Debug, Clone, Copy, PartialEq, Eq, Structural)]
pub enum BoolOrInt {
    Bool(bool),
    Int(i64),
}

#[derive(Debug, Clone, PartialEq)]
pub enum StringOrInt {
    String(String),
    Int(i64),
}

impl From<BoolOrInt> for Option<i64> {
    fn from(b: BoolOrInt) -> (r: Option<i64>) {
        match b {
            BoolOrInt::Bool(_) => None,
            BoolOrInt::Int(i) => Some(i),
        }
    }
}

impl vstd::std_specs::convert::FromSpecImpl<BoolOrInt> for Option<i64> {
    open spec fn obeys_from_spec() -> bool {
        true
    }

    open spec fn from_spec(b: BoolOrInt) -> Option<i64> {
        match b {
            BoolOrInt::Bool(_) => None,
            BoolOrInt::Int(i) => Some(i),
        }
    }
}

impl From<BoolOrInt> for i64 {
    fn from(b: BoolOrInt) -> (r: i64) {
        match b {
            BoolOrInt::Bool(_) => 0,
            BoolOrInt::Int(i) => i,
        }
    }
}

impl vstd::std_specs::convert::FromSpecImpl<BoolOrInt> for i64 {
    open spec fn obeys_from_spec() -> bool {
        true
    }

    open spec fn from_spec(b: BoolOrInt) -> i64 {
        match b {
            BoolOrInt::Bool(_) => 0,
            BoolOrInt::Int(i) => i,
        }
    }
}

} // verus!
