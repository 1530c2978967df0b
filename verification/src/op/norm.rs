//! `rmsnorm` and `layernorm`: normalisation along the last axis.

use crate::arg::{Arg, ArgV};
use crate::dim::unified;
use crate::op::{agrees, arg_value, single, unify_dims, with_last, OpError, Operator};
use crate::tensor::{metas_view, MetaV, TensorMeta};
use vstd::prelude::*;

verus! {

/// The `rmsnorm` operator.
#[derive(Clone, Copy, Debug)]
pub struct RmsNorm;

/// The `layernorm` operator.
#[derive(Clone, Copy, Debug)]
pub struct LayerNorm;

/// The argument is the epsilon: a floating-point number.
pub open spec fn epsilon_ok(arg: Option<ArgV>) -> bool {
    arg matches Some(ArgV::Float(_))
}

/// Whether the argument is the epsilon.
pub fn has_epsilon(args: Option<&Arg>) -> (r: bool)
    ensures
        r == epsilon_ok(arg_value(args)),
{
    match args {
        Some(Arg::Float(_)) => true,
        _ => false,
    }
}

/// What `rmsnorm` and `layernorm` give: inputs `(x: [.., d], scale: [d])`,
/// optionally followed by `bias: [d]` of the element type of the scale;
/// the argument is the epsilon; the output has the meta of `x` with `d`
/// unified.
pub open spec fn norm_rule(inputs: Seq<MetaV>, arg: Option<ArgV>) -> Result<Seq<MetaV>, OpError> {
    if !epsilon_ok(arg) {
        Err(OpError::ArgError)
    } else if inputs.len() != 2 && inputs.len() != 3 {
        Err(OpError::ShapeError)
    } else if inputs[0].shape.len() < 1 || inputs[1].shape.len() != 1 {
        Err(OpError::ShapeError)
    } else if inputs.len() == 3 && inputs[2].shape.len() != 1 {
        Err(OpError::ShapeError)
    } else if inputs.len() == 3 && inputs[1].dt != inputs[2].dt {
        Err(OpError::DTypeMismatch)
    } else {
        match unified(inputs[0].shape.last(), inputs[1].shape[0]) {
            None => Err(OpError::ShapeMismatch),
            Some(d) => if inputs.len() == 2 {
                Ok(seq![MetaV { dt: inputs[0].dt, shape: inputs[0].shape.drop_last().push(d) }])
            } else {
                match unified(d, inputs[2].shape[0]) {
                    None => Err(OpError::ShapeMismatch),
                    Some(d) => Ok(
                        seq![
                            MetaV { dt: inputs[0].dt, shape: inputs[0].shape.drop_last().push(d) },
                        ],
                    ),
                }
            },
        }
    }
}

/// Runs the rule of `rmsnorm` and `layernorm`.
pub fn infer_norm(inputs: &[TensorMeta], args: Option<&Arg>) -> (r: Result<
    Vec<TensorMeta>,
    OpError,
>)
    ensures
        agrees(r, norm_rule(metas_view(inputs@), arg_value(args))),
{
    if !has_epsilon(args) {
        return Err(OpError::ArgError);
    }
    if inputs.len() != 2 && inputs.len() != 3 {
        return Err(OpError::ShapeError);
    }
    let x = &inputs[0];
    let scale = &inputs[1];
    if x.shape.len() < 1 || scale.shape.len() != 1 {
        return Err(OpError::ShapeError);
    }
    if inputs.len() == 3 && inputs[2].shape.len() != 1 {
        return Err(OpError::ShapeError);
    }
    if inputs.len() == 3 && scale.dt != inputs[2].dt {
        return Err(OpError::DTypeMismatch);
    }
    let d = unify_dims(&x.shape[x.shape.len() - 1], &scale.shape[0])?;
    let d = if inputs.len() == 2 {
        d
    } else {
        unify_dims(&d, &inputs[2].shape[0])?
    };
    Ok(single(TensorMeta::new(x.dt, with_last(x.shape.as_slice(), d))))
}

impl Operator for RmsNorm {
    open spec fn rule(&self, inputs: Seq<MetaV>, arg: Option<ArgV>) -> Result<
        Seq<MetaV>,
        OpError,
    > {
        norm_rule(inputs, arg)
    }

    fn infer(&self, inputs: &[TensorMeta], args: Option<&Arg>) -> (r: Result<
        Vec<TensorMeta>,
        OpError,
    >) {
        infer_norm(inputs, args)
    }
}

impl Operator for LayerNorm {
    open spec fn rule(&self, inputs: Seq<MetaV>, arg: Option<ArgV>) -> Result<
        Seq<MetaV>,
        OpError,
    > {
        norm_rule(inputs, arg)
    }

    fn infer(&self, inputs: &[TensorMeta], args: Option<&Arg>) -> (r: Result<
        Vec<TensorMeta>,
        OpError,
    >) {
        infer_norm(inputs, args)
    }
}

} // verus!
