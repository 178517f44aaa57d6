//! Reduction of an expression to a value against a scope.

use crate::abc::{AsComposable, IComposable};
use crate::container::{result_view, Expression, Fault, RenderError};
use crate::context::{lookup_in, VarContext};
use crate::types::{arith, attr_of, BType, Val};
use vstd::prelude::*;

verus! {

/// The value of an expression in a scope. A name that nothing binds, and
/// an attribute that the value does not have, give nothing; arithmetic on
/// operands that do not support it is an error.
pub open spec fn eval_result(frames: Seq<Seq<(Seq<char>, Val)>>, e: Expression) -> Result<
    Option<Val>,
    Fault,
>
    decreases e,
{
    match e {
        Expression::Literal(v) => Ok(Some(v@)),
        Expression::Variable(id) => Ok(lookup_in(frames, id@)),
        Expression::Attribute(inner, id) => match eval_result(frames, *inner) {
            Ok(Some(v)) => Ok(attr_of(v, id@)),
            Ok(None) => Ok(None),
            Err(e) => Err(e),
        },
        Expression::Binary(op, a, b) => match eval_result(frames, *a) {
            Err(e) => Err(e),
            Ok(x) => match eval_result(frames, *b) {
                Err(e) => Err(e),
                Ok(y) => match (x, y) {
                    (Some(p), Some(q)) => match arith(op, p, q) {
                        Some(r) => Ok(Some(r)),
                        None => Err(Fault::Evaluation),
                    },
                    _ => Err(Fault::Evaluation),
                },
            },
        },
    }
}

/// Reduces an expression to a value in the given scope.
pub fn eval_expr(context: &VarContext, expr: &Expression) -> (r: Result<Option<BType>, RenderError>)
    ensures
        result_view(r) == eval_result(context.frames(), *expr),
    decreases expr,
{
    match expr {
        Expression::Literal(v) => Ok(Some(v.duplicate())),
        Expression::Variable(id) => Ok(context.lookup(id.as_str())),
        Expression::Attribute(inner, id) => match eval_expr(context, inner) {
            Ok(Some(v)) => match v.try_as_composable() {
                Some(attrs) => Ok(attrs.get_attr(id.as_str())),
                None => Ok(None),
            },
            Ok(None) => Ok(None),
            Err(e) => Err(e),
        },
        Expression::Binary(op, a, b) => match eval_expr(context, a) {
            Err(e) => Err(e),
            Ok(x) => match eval_expr(context, b) {
                Err(e) => Err(e),
                Ok(y) => match (x, y) {
                    (Some(p), Some(q)) => match p.try_op(*op, &q) {
                        Some(r) => Ok(Some(r)),
                        None => Err(RenderError::Evaluation),
                    },
                    _ => Err(RenderError::Evaluation),
                },
            },
        },
    }
}

} // verus!
