//! The runtime value an evaluator node produces: a plain number, or a group
//! of rolls with an identity.

use super::roll_types::spec_total_sat;
use super::roll_types::RollGroup;
use super::roll_types::RollId;
use crate::rational::rat_eqv;
use crate::rational::rat_of_int;
use crate::rational::Rat;
use crate::rational::Rational;
use vstd::prelude::*;

verus! {

/// The two kinds of operand.
#[derive(Debug, PartialEq, Eq, Copy, Clone, Structural)]
pub enum OperandType {
    Number,
    Roll,
}

/// The value flowing through the evaluator: a plain number, or a roll group
/// carrying the identity under which its latest state is collected.
#[derive(Debug, PartialEq, Clone)]
pub enum Operand {
    Number(Rational),
    Roll { id: RollId, data: RollGroup },
}

/// The numeric value of an operand: the number itself, or the group's total.
pub open spec fn spec_value(o: Operand) -> Rat {
    match o {
        Operand::Number(n) => n@,
        Operand::Roll { id: _, data } => rat_of_int(spec_total_sat(data@)),
    }
}

/// Whether the operand is a roll whose group is the given one.
pub open spec fn spec_is_roll_of(o: Operand, data: RollGroup) -> bool {
    match o {
        Operand::Roll { id: _, data: d } => d == data,
        Operand::Number(_) => false,
    }
}

impl Operand {
    /// Which kind of operand this is.
    pub fn operand_type(&self) -> (r: OperandType)
        ensures
            r == (match self {
                Operand::Number(_) => OperandType::Number,
                Operand::Roll { .. } => OperandType::Roll,
            }),
    {
        match self {
            Operand::Number(_) => OperandType::Number,
            Operand::Roll { .. } => OperandType::Roll,
        }
    }

    /// The numeric value: the number itself, or the group's total.
    pub fn value(&self) -> (r: Rational)
        ensures
            r@ == spec_value(*self),
    {
        match self {
            Operand::Number(n) => *n,
            Operand::Roll { data, .. } => Rational::from_int(data.total() as i64),
        }
    }

    /// The numeric value, consuming the operand.
    pub fn into_value(self) -> (r: Rational)
        ensures
            r@ == spec_value(self),
    {
        let r = self.value();
        r
    }

    /// A plain-number operand with this operand's value; a roll loses its
    /// identity here.
    pub fn to_number(&self) -> (r: Operand)
        ensures
            r is Number,
            spec_value(r) == spec_value(*self),
    {
        Operand::Number(self.value())
    }

    /// As [`Operand::to_number`], consuming the operand.
    pub fn into_number(self) -> (r: Operand)
        ensures
            r is Number,
            spec_value(r) == spec_value(self),
    {
        let n = self.value();
        Operand::Number(n)
    }

    /// Whether the two operands hold the same numeric value.  Arithmetic is
    /// exact here, so this is exact equality of rationals, with no tolerance
    /// band around it.
    pub fn approx_eq(&self, rhs: &Operand) -> (r: bool)
        ensures
            r == rat_eqv(spec_value(*self), spec_value(*rhs)),
    {
        let a = self.value();
        let b = rhs.value();
        a.eqv(&b)
    }

    /// A roll operand around a freshly created group, under a fresh identity.
    pub fn from_group(data: RollGroup) -> (r: Operand)
        ensures
            spec_is_roll_of(r, data),
    {
        Operand::Roll { id: RollId::new(), data }
    }
}

impl From<RollGroup> for Operand {
    /// A roll operand around the group, under a fresh random identity.
    fn from(value: RollGroup) -> (r: Operand)
        ensures
            spec_is_roll_of(r, value),
    {
        Operand::from_group(value)
    }
}

impl vstd::std_specs::convert::FromSpecImpl<RollGroup> for Operand {
    /// The identity is drawn at random, so no spec function can name the
    /// result; the `From` impl carries its own ensures instead.
    open spec fn obeys_from_spec() -> bool {
        false
    }

    open spec fn from_spec(value: RollGroup) -> Operand {
        arbitrary()
    }
}

} // verus!
