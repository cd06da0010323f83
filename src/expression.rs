//! Lowering of the gadget's polynomials to halo2 expressions over the Pallas
//! base field.
//!
//! halo2's `-` and `*` on expressions build `Sum(a, Negated(b))` and
//! `Product(a, b)`, after a check that panics when simple selectors are
//! combined wrongly. The expressions built here put a selector only at the
//! outermost product of a gate, so they are built from the variants directly.
use halo2_proofs::pasta::Fp;
use halo2_proofs::plonk::{Expression, Selector};
use halo2_proofs::poly::Rotation;
use vstd::prelude::*;

use crate::poly::Poly;

verus! {

#[verifier::external_type_specification]
#[verifier::external_body]
pub struct ExFp(Fp);

#[verifier::external_type_specification]
#[verifier::external_body]
pub struct ExSelector(Selector);

#[verifier::external_type_specification]
pub struct ExRotation(Rotation);

#[verifier::external_type_specification]
#[verifier::reject_recursive_types(F)]
pub struct ExExpression<F>(Expression<F>);

/// The field element that `Fp::from` gives for `c`.
pub uninterp spec fn field_of(c: u64) -> Fp;

/// Relies on `impl From<u64> for Fp`: the field element of a small integer.
#[verifier::external_body]
fn fp_from_u64(c: u64) -> (r: Fp)
    ensures
        r == field_of(c),
{
    Fp::from(c)
}

/// A copy of `e`, variant by variant.
pub fn copy_expr(e: &Expression<Fp>) -> (r: Expression<Fp>)
    ensures
        r == *e,
    decreases e,
{
    match e {
        Expression::Constant(c) => Expression::Constant(*c),
        Expression::Selector(q) => Expression::Selector(*q),
        Expression::Fixed { query_index, column_index, rotation } => Expression::Fixed {
            query_index: *query_index,
            column_index: *column_index,
            rotation: Rotation(rotation.0),
        },
        Expression::Advice { query_index, column_index, rotation } => Expression::Advice {
            query_index: *query_index,
            column_index: *column_index,
            rotation: Rotation(rotation.0),
        },
        Expression::Instance { query_index, column_index, rotation } => Expression::Instance {
            query_index: *query_index,
            column_index: *column_index,
            rotation: Rotation(rotation.0),
        },
        Expression::Negated(a) => Expression::Negated(Box::new(copy_expr(a))),
        Expression::Sum(a, b) => Expression::Sum(Box::new(copy_expr(a)), Box::new(copy_expr(b))),
        Expression::Product(a, b) => Expression::Product(
            Box::new(copy_expr(a)),
            Box::new(copy_expr(b)),
        ),
        Expression::Scaled(a, c) => Expression::Scaled(Box::new(copy_expr(a)), *c),
    }
}

/// `e` is `p` written as a halo2 expression, with `value` in place of the cell:
/// each constant becomes its field element, each difference a sum with the
/// negated right side, each product a product.
pub open spec fn lowers_to(p: Poly, value: Expression<Fp>, e: Expression<Fp>) -> bool
    decreases p,
{
    match p {
        Poly::Value => e == value,
        Poly::Constant(c) => e == Expression::Constant(field_of(c)),
        Poly::Sub(a, b) => match e {
            Expression::Sum(x, y) => match *y {
                Expression::Negated(z) => lowers_to(*a, value, *x) && lowers_to(*b, value, *z),
                _ => false,
            },
            _ => false,
        },
        Poly::Mul(a, b) => match e {
            Expression::Product(x, y) => lowers_to(*a, value, *x) && lowers_to(*b, value, *y),
            _ => false,
        },
    }
}

/// Writes `p` as a halo2 expression, with `value` in place of the cell.
pub fn lower(p: &Poly, value: &Expression<Fp>) -> (r: Expression<Fp>)
    ensures
        lowers_to(*p, *value, r),
    decreases p,
{
    match p {
        Poly::Value => copy_expr(value),
        Poly::Constant(c) => Expression::Constant(fp_from_u64(*c)),
        Poly::Sub(a, b) => {
            let x = lower(a, value);
            let z = lower(b, value);
            Expression::Sum(Box::new(x), Box::new(Expression::Negated(Box::new(z))))
        },
        Poly::Mul(a, b) => {
            let x = lower(a, value);
            let y = lower(b, value);
            Expression::Product(Box::new(x), Box::new(y))
        },
    }
}

/// The range-check constraint: the queried selector times `p` at the queried
/// cell.
pub fn range_gate(q: Expression<Fp>, value: &Expression<Fp>, p: &Poly) -> (r: Expression<Fp>)
    ensures
        r matches Expression::Product(x, y) && *x == q && lowers_to(*p, *value, *y),
{
    Expression::Product(Box::new(q), Box::new(lower(p, value)))
}

/// The lookup's input: the queried selector times the queried cell, which is
/// 0 (a table entry) on rows where the selector is off.
pub fn lookup_input(q: Expression<Fp>, value: Expression<Fp>) -> (r: Expression<Fp>)
    ensures
        r == Expression::Product(Box::new(q), Box::new(value)),
{
    Expression::Product(Box::new(q), Box::new(value))
}

} // verus!
