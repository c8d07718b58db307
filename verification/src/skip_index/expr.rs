//! Predicates over a column, as far as skip indexes read and build them.

use std::sync::Arc;

use vstd::prelude::*;

use crate::bloom_filter::aggregate::AggregateFnRef;
use crate::bloom_filter::options::BloomOptions;
use crate::dtype::DType;
use crate::scalar::Scalar;

verus! {

/// Operators of two operands.
#[derive(Clone, Copy, Debug, PartialEq, Eq, Hash, Structural)]
pub enum Operator {
    /// Equal.
    Eq,
    /// Not equal.
    NotEq,
    /// Greater.
    Gt,
    /// Greater or equal.
    Gte,
    /// Less.
    Lt,
    /// Less or equal.
    Lte,
    /// Both hold.
    And,
    /// Either holds.
    Or,
    /// The sum.
    Add,
    /// The difference.
    Sub,
    /// The product.
    Mul,
    /// The quotient.
    Div,
}

/// An expression over a column.
#[derive(Debug)]
pub enum Expression {
    /// The column itself.
    Root,
    /// A constant.
    Literal(Scalar),
    /// An operator applied to two operands.
    Binary(Operator, Arc<Expression>, Arc<Expression>),
    /// The negation of a predicate.
    Not(Arc<Expression>),
    /// The stored state of an aggregate over the zone, null where it was not stored.
    Stat(Arc<Expression>, AggregateFnRef),
    /// The probe of a stored filter for a value.
    BloomContains(BloomOptions, Arc<Expression>, Arc<Expression>),
    /// An expression that skip indexes do not look into.
    Other,
}

/// What an operand is, before one looks into it.
#[derive(Clone, Copy, Debug, PartialEq, Eq, Structural)]
pub enum Operand {
    /// The column itself.
    Column,
    /// A constant.
    Literal,
    /// Anything else.
    Other,
}

/// One of the two operands of an operator.
#[derive(Clone, Copy, Debug, PartialEq, Eq, Structural)]
pub enum Side {
    /// The first.
    Left,
    /// The second.
    Right,
}

impl Expression {
    /// What the expression is as an operand.
    pub open spec fn spec_operand(self) -> Operand {
        match self {
            Expression::Root => Operand::Column,
            Expression::Literal(_) => Operand::Literal,
            _ => Operand::Other,
        }
    }

    /// Returns what the expression is as an operand.
    pub fn operand(&self) -> (operand: Operand)
        ensures
            operand == self.spec_operand(),
    {
        match self {
            Expression::Root => Operand::Column,
            Expression::Literal(_) => Operand::Literal,
            _ => Operand::Other,
        }
    }
}

/// What a rewrite of a predicate knows of the column.
#[derive(Debug)]
pub struct StatsRewriteCtx<'a> {
    /// The type of the column.
    pub scope: &'a DType,
}

} // verus!
