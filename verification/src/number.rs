//! Numbers that may be undefined.
//!
//! A [`Number`] is either a defined [`Fixed`] or `Undefined`, the state of a
//! quantity that cannot be resolved yet. `Undefined` is contagious: every
//! arithmetic operator yields `Undefined` as soon as one operand is.

use crate::fixed::Fixed;
use core::cmp::Ordering;
use vstd::prelude::*;

verus! {

/// A fixed-point number or the explicit absence of one.
#[derive(Copy, Clone, PartialEq, Eq, Debug, Structural)]
pub enum Number {
    Defined(Fixed),
    Undefined,
}

impl Default for Number {
    fn default() -> (r: Number)
        ensures
            r == Number::Undefined,
    {
        Number::Undefined
    }
}

impl Number {
    /// Whether a value is present.
    pub open spec fn is_defined_spec(self) -> bool {
        self is Defined
    }

    /// Whether a value is present.
    #[verifier::when_used_as_spec(is_defined_spec)]
    pub fn is_defined(self) -> (r: bool)
        ensures
            r == (self is Defined),
    {
        match self {
            Number::Defined(_) => true,
            Number::Undefined => false,
        }
    }

    /// Whether no value is present.
    pub open spec fn is_undefined_spec(self) -> bool {
        self is Undefined
    }

    /// Whether no value is present.
    #[verifier::when_used_as_spec(is_undefined_spec)]
    pub fn is_undefined(self) -> (r: bool)
        ensures
            r == (self is Undefined),
    {
        match self {
            Number::Defined(_) => false,
            Number::Undefined => true,
        }
    }

    /// The value, or `default` where there is none.
    pub open spec fn or_else_spec(self, default: Fixed) -> Fixed {
        match self {
            Number::Defined(v) => v,
            Number::Undefined => default,
        }
    }

    /// The value, or `default` where there is none.
    #[verifier::when_used_as_spec(or_else_spec)]
    pub fn or_else(self, default: Fixed) -> (r: Fixed)
        ensures
            r == self.or_else_spec(default),
    {
        match self {
            Number::Defined(v) => v,
            Number::Undefined => default,
        }
    }

    /// The sum of two defined numbers; `Undefined` if either is.
    pub open spec fn spec_add(self, rhs: Number) -> Number {
        match (self, rhs) {
            (Number::Defined(a), Number::Defined(b)) => Number::Defined(a.spec_add(b)),
            _ => Number::Undefined,
        }
    }

    /// The difference of two defined numbers; `Undefined` if either is.
    pub open spec fn spec_sub(self, rhs: Number) -> Number {
        match (self, rhs) {
            (Number::Defined(a), Number::Defined(b)) => Number::Defined(a.spec_sub(b)),
            _ => Number::Undefined,
        }
    }

    /// The product of two defined numbers; `Undefined` if either is.
    pub open spec fn spec_mul(self, rhs: Number) -> Number {
        match (self, rhs) {
            (Number::Defined(a), Number::Defined(b)) => Number::Defined(a.spec_mul(b)),
            _ => Number::Undefined,
        }
    }

    /// The quotient of two defined numbers; `Undefined` if either is.
    pub open spec fn spec_div(self, rhs: Number) -> Number {
        match (self, rhs) {
            (Number::Defined(a), Number::Defined(b)) => Number::Defined(a.spec_div(b)),
            _ => Number::Undefined,
        }
    }

    /// A defined number times `factor`; `Undefined` stays `Undefined`.
    pub open spec fn scale(self, factor: Fixed) -> Number {
        match self {
            Number::Defined(a) => Number::Defined(a.spec_mul(factor)),
            Number::Undefined => Number::Undefined,
        }
    }

    /// The number itself where it is defined, `other` where it is not.
    pub open spec fn or_spec(self, other: Number) -> Number {
        match self {
            Number::Defined(_) => self,
            Number::Undefined => other,
        }
    }

    /// The number itself where it is defined, `other` where it is not.
    #[verifier::when_used_as_spec(or_spec)]
    pub fn or(self, other: Number) -> (r: Number)
        ensures
            r == self.or_spec(other),
    {
        match self {
            Number::Defined(_) => self,
            Number::Undefined => other,
        }
    }

    /// The smaller of two defined numbers; `Undefined` if either is.
    pub open spec fn min_spec(self, other: Number) -> Number {
        match (self, other) {
            (Number::Defined(a), Number::Defined(b)) => Number::Defined(a.min_spec(b)),
            _ => Number::Undefined,
        }
    }

    /// The smaller of two defined numbers; `Undefined` if either is.
    #[verifier::when_used_as_spec(min_spec)]
    pub fn min(self, other: Number) -> (r: Number)
        ensures
            r == self.min_spec(other),
    {
        match (self, other) {
            (Number::Defined(a), Number::Defined(b)) => Number::Defined(a.min(b)),
            _ => Number::Undefined,
        }
    }

    /// The larger of two defined numbers; `Undefined` if either is.
    pub open spec fn max_spec(self, other: Number) -> Number {
        match (self, other) {
            (Number::Defined(a), Number::Defined(b)) => Number::Defined(a.max_spec(b)),
            _ => Number::Undefined,
        }
    }

    /// The larger of two defined numbers; `Undefined` if either is.
    #[verifier::when_used_as_spec(max_spec)]
    pub fn max(self, other: Number) -> (r: Number)
        ensures
            r == self.max_spec(other),
    {
        match (self, other) {
            (Number::Defined(a), Number::Defined(b)) => Number::Defined(a.max(b)),
            _ => Number::Undefined,
        }
    }

    /// The number capped from above by `limit`, where `limit` is defined.
    /// An undefined limit caps nothing; an undefined number stays undefined.
    pub open spec fn maybe_min_spec(self, limit: Number) -> Number {
        match (self, limit) {
            (Number::Defined(a), Number::Defined(b)) => Number::Defined(a.min_spec(b)),
            _ => self,
        }
    }

    /// The number capped from above by `limit`, where `limit` is defined.
    #[verifier::when_used_as_spec(maybe_min_spec)]
    pub fn maybe_min(self, limit: Number) -> (r: Number)
        ensures
            r == self.maybe_min_spec(limit),
    {
        match (self, limit) {
            (Number::Defined(a), Number::Defined(b)) => Number::Defined(a.min(b)),
            _ => self,
        }
    }

    /// The number raised to at least `limit`, where `limit` is defined.
    /// An undefined limit raises nothing; an undefined number stays undefined.
    pub open spec fn maybe_max_spec(self, limit: Number) -> Number {
        match (self, limit) {
            (Number::Defined(a), Number::Defined(b)) => Number::Defined(a.max_spec(b)),
            _ => self,
        }
    }

    /// The number raised to at least `limit`, where `limit` is defined.
    #[verifier::when_used_as_spec(maybe_max_spec)]
    pub fn maybe_max(self, limit: Number) -> (r: Number)
        ensures
            r == self.maybe_max_spec(limit),
    {
        match (self, limit) {
            (Number::Defined(a), Number::Defined(b)) => Number::Defined(a.max(b)),
            _ => self,
        }
    }
}

/// An operator applied to an undefined operand yields `Undefined`.
pub proof fn lemma_undefined_propagates(a: Number, b: Number)
    requires
        a is Undefined || b is Undefined,
    ensures
        a.spec_add(b) is Undefined,
        a.spec_sub(b) is Undefined,
        a.spec_mul(b) is Undefined,
        a.spec_div(b) is Undefined,
        a.min(b) is Undefined,
        a.max(b) is Undefined,
{
}

/// An undefined number stays undefined under a factor.
pub proof fn lemma_undefined_scales_to_undefined(factor: Fixed)
    ensures
        Number::Undefined.scale(factor) is Undefined,
{
}

/// An operator applied to two defined operands yields the defined result of
/// the same operator on their values.
pub proof fn lemma_defined_combines(a: Fixed, b: Fixed)
    ensures
        Number::Defined(a).spec_add(Number::Defined(b)) == Number::Defined(a.spec_add(b)),
        Number::Defined(a).spec_sub(Number::Defined(b)) == Number::Defined(a.spec_sub(b)),
        Number::Defined(a).spec_mul(Number::Defined(b)) == Number::Defined(a.spec_mul(b)),
        Number::Defined(a).spec_div(Number::Defined(b)) == Number::Defined(a.spec_div(b)),
        Number::Defined(a).scale(b) == Number::Defined(a.spec_mul(b)),
        Number::Defined(a).min(Number::Defined(b)) == Number::Defined(a.min_spec(b)),
        Number::Defined(a).max(Number::Defined(b)) == Number::Defined(a.max_spec(b)),
{
}

impl core::ops::Add for Number {
    type Output = Number;

    fn add(self, rhs: Number) -> (r: Number)
        ensures
            r == self.spec_add(rhs),
    {
        match (self, rhs) {
            (Number::Defined(a), Number::Defined(b)) => Number::Defined(a + b),
            _ => Number::Undefined,
        }
    }
}

impl vstd::std_specs::ops::AddSpecImpl for Number {
    open spec fn obeys_add_spec() -> bool {
        true
    }

    open spec fn add_req(self, rhs: Number) -> bool {
        true
    }

    open spec fn add_spec(self, rhs: Number) -> Number {
        self.spec_add(rhs)
    }
}

impl core::ops::Sub for Number {
    type Output = Number;

    fn sub(self, rhs: Number) -> (r: Number)
        ensures
            r == self.spec_sub(rhs),
    {
        match (self, rhs) {
            (Number::Defined(a), Number::Defined(b)) => Number::Defined(a - b),
            _ => Number::Undefined,
        }
    }
}

impl vstd::std_specs::ops::SubSpecImpl for Number {
    open spec fn obeys_sub_spec() -> bool {
        true
    }

    open spec fn sub_req(self, rhs: Number) -> bool {
        true
    }

    open spec fn sub_spec(self, rhs: Number) -> Number {
        self.spec_sub(rhs)
    }
}

impl core::ops::Mul for Number {
    type Output = Number;

    fn mul(self, rhs: Number) -> (r: Number)
        ensures
            r == self.spec_mul(rhs),
    {
        match (self, rhs) {
            (Number::Defined(a), Number::Defined(b)) => Number::Defined(a * b),
            _ => Number::Undefined,
        }
    }
}

impl vstd::std_specs::ops::MulSpecImpl for Number {
    open spec fn obeys_mul_spec() -> bool {
        true
    }

    open spec fn mul_req(self, rhs: Number) -> bool {
        true
    }

    open spec fn mul_spec(self, rhs: Number) -> Number {
        self.spec_mul(rhs)
    }
}

impl core::ops::Div for Number {
    type Output = Number;

    fn div(self, rhs: Number) -> (r: Number)
        ensures
            r == self.spec_div(rhs),
    {
        match (self, rhs) {
            (Number::Defined(a), Number::Defined(b)) => Number::Defined(a / b),
            _ => Number::Undefined,
        }
    }
}

impl vstd::std_specs::ops::DivSpecImpl for Number {
    open spec fn obeys_div_spec() -> bool {
        true
    }

    open spec fn div_req(self, rhs: Number) -> bool {
        true
    }

    open spec fn div_spec(self, rhs: Number) -> Number {
        self.spec_div(rhs)
    }
}

impl core::ops::Mul<Fixed> for Number {
    type Output = Number;

    fn mul(self, rhs: Fixed) -> (r: Number)
        ensures
            r == self.scale(rhs),
    {
        match self {
            Number::Defined(a) => Number::Defined(a * rhs),
            Number::Undefined => Number::Undefined,
        }
    }
}

impl vstd::std_specs::ops::MulSpecImpl<Fixed> for Number {
    open spec fn obeys_mul_spec() -> bool {
        true
    }

    open spec fn mul_req(self, rhs: Fixed) -> bool {
        true
    }

    open spec fn mul_spec(self, rhs: Fixed) -> Number {
        self.scale(rhs)
    }
}

impl PartialOrd for Number {
    fn partial_cmp(&self, other: &Number) -> (r: Option<Ordering>) {
        match (*self, *other) {
            (Number::Defined(a), Number::Defined(b)) => {
                if a.raw < b.raw {
                    Some(Ordering::Less)
                } else if a.raw > b.raw {
                    Some(Ordering::Greater)
                } else {
                    Some(Ordering::Equal)
                }
            },
            (Number::Undefined, Number::Undefined) => Some(Ordering::Equal),
            _ => None,
        }
    }
}

impl vstd::std_specs::cmp::PartialOrdSpecImpl for Number {
    open spec fn obeys_partial_cmp_spec() -> bool {
        true
    }

    open spec fn partial_cmp_spec(&self, other: &Number) -> Option<Ordering> {
        match (*self, *other) {
            (Number::Defined(a), Number::Defined(b)) => {
                if a.raw < b.raw {
                    Some(Ordering::Less)
                } else if a.raw > b.raw {
                    Some(Ordering::Greater)
                } else {
                    Some(Ordering::Equal)
                }
            },
            (Number::Undefined, Number::Undefined) => Some(Ordering::Equal),
            _ => None,
        }
    }
}

} // verus!
