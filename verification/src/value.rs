//! The values that a dialogue computes with.

use crate::text::str_eq;
use crate::types::{Type, TypeView};
use vstd::prelude::*;
use vstd::std_specs::cmp::PartialEqSpecImpl;

verus! {

/// A number, held as the bits of its IEEE 754 single-precision encoding.
///
/// The library moves numbers about and tests them against zero. Arithmetic
/// and formatting are left to the host, which turns the bits into a float
/// and back. Two numbers are equal here when their encodings are: a NaN
/// equals itself, and the two zeros differ.
#[derive(Debug, Clone, Copy, PartialEq, Eq, Hash, Structural)]
pub struct Number {
    pub bits: u32,
}

impl Number {
    /// Whether the number is greater than zero: its sign bit is clear, and it
    /// is neither zero nor a NaN.
    pub open spec fn spec_is_positive(self) -> bool {
        0 < self.bits <= 0x7F80_0000
    }

    /// Whether the number is one of the two zeros.
    pub open spec fn spec_is_zero(self) -> bool {
        self.bits == 0 || self.bits == 0x8000_0000
    }

    /// The number with the given encoding.
    pub fn from_bits(bits: u32) -> (number: Number)
        ensures
            number.bits == bits,
    {
        Number { bits }
    }

    /// The encoding of the number.
    pub fn to_bits(self) -> (bits: u32)
        ensures
            bits == self.bits,
    {
        self.bits
    }

    /// Positive zero.
    pub fn zero() -> (number: Number)
        ensures
            number.bits == 0,
    {
        Number { bits: 0 }
    }

    /// Whether the number is greater than zero.
    #[verifier::when_used_as_spec(spec_is_positive)]
    pub fn is_positive(self) -> (positive: bool)
        ensures
            positive == self.spec_is_positive(),
    {
        0 < self.bits && self.bits <= 0x7F80_0000
    }

    /// Whether the number is one of the two zeros.
    #[verifier::when_used_as_spec(spec_is_zero)]
    pub fn is_zero(self) -> (zero: bool)
        ensures
            zero == self.spec_is_zero(),
    {
        self.bits == 0 || self.bits == 0x8000_0000
    }
}

impl View for Number {
    type V = Number;

    open spec fn view(&self) -> Number {
        *self
    }
}

impl DeepView for Number {
    type V = Number;

    open spec fn deep_view(&self) -> Number {
        *self
    }
}

/// A value: a number, a string or a truth value. There is no null.
#[derive(Debug, Eq)]
pub enum YarnValue {
    Number(Number),
    String(String),
    Bool(bool),
}

/// The mathematical value of a [`YarnValue`].
pub enum YarnValueView {
    Number(Number),
    String(Seq<char>),
    Bool(bool),
}

impl View for YarnValue {
    type V = YarnValueView;

    open spec fn view(&self) -> YarnValueView {
        match self {
            YarnValue::Number(number) => YarnValueView::Number(*number),
            YarnValue::String(string) => YarnValueView::String(string@),
            YarnValue::Bool(truth) => YarnValueView::Bool(*truth),
        }
    }
}

impl DeepView for YarnValue {
    type V = YarnValueView;

    open spec fn deep_view(&self) -> YarnValueView {
        self@
    }
}

impl Clone for YarnValue {
    fn clone(&self) -> (r: Self)
        ensures
            r@ == self@,
    {
        match self {
            YarnValue::Number(number) => YarnValue::Number(*number),
            YarnValue::String(string) => YarnValue::String(string.clone()),
            YarnValue::Bool(truth) => YarnValue::Bool(*truth),
        }
    }
}

impl PartialEq for YarnValue {
    fn eq(&self, other: &Self) -> (r: bool) {
        match (self, other) {
            (YarnValue::Number(a), YarnValue::Number(b)) => a.bits == b.bits,
            (YarnValue::String(a), YarnValue::String(b)) => *a == *b,
            (YarnValue::Bool(a), YarnValue::Bool(b)) => *a == *b,
            _ => false,
        }
    }
}

impl PartialEqSpecImpl for YarnValue {
    open spec fn obeys_eq_spec() -> bool {
        true
    }

    open spec fn eq_spec(&self, other: &Self) -> bool {
        self@ == other@
    }
}

impl YarnValueView {
    /// The type of the value.
    pub open spec fn type_of(self) -> TypeView {
        match self {
            YarnValueView::Number(_) => TypeView::Number,
            YarnValueView::String(_) => TypeView::String,
            YarnValueView::Bool(_) => TypeView::Bool,
        }
    }

    /// The value as a truth value: a truth value is itself, a number is true
    /// unless it is zero, and of the strings only `true` and `false` stand
    /// for one.
    pub open spec fn as_bool(self) -> Option<bool> {
        match self {
            YarnValueView::Bool(truth) => Some(truth),
            YarnValueView::Number(number) => Some(!number.spec_is_zero()),
            YarnValueView::String(string) => if string == "true"@ {
                Some(true)
            } else if string == "false"@ {
                Some(false)
            } else {
                None
            },
        }
    }

    /// The string that the value holds, if it is a string.
    pub open spec fn as_string(self) -> Option<Seq<char>> {
        match self {
            YarnValueView::String(string) => Some(string),
            _ => None,
        }
    }
}

impl YarnValue {
    /// The type of the value.
    pub fn type_of(&self) -> (ty: Type)
        ensures
            ty@ == self@.type_of(),
    {
        match self {
            YarnValue::Number(_) => Type::Number,
            YarnValue::String(_) => Type::String,
            YarnValue::Bool(_) => Type::Bool,
        }
    }

    /// The value as a truth value, where it has one.
    pub fn as_bool(&self) -> (truth: Option<bool>)
        ensures
            truth == self@.as_bool(),
    {
        match self {
            YarnValue::Bool(truth) => Some(*truth),
            YarnValue::Number(number) => Some(!number.is_zero()),
            YarnValue::String(string) => {
                if str_eq(string.as_str(), "true") {
                    Some(true)
                } else if str_eq(string.as_str(), "false") {
                    Some(false)
                } else {
                    None
                }
            },
        }
    }

    /// The string that the value holds, if it is a string.
    pub fn as_string(&self) -> (string: Option<&String>)
        ensures
            string.deep_view() == self@.as_string(),
    {
        match self {
            YarnValue::String(string) => Some(string),
            _ => None,
        }
    }
}

} // verus!
