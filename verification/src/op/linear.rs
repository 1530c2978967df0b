//! `linear` and `matmul`: products with a matrix along the last axis.

use crate::arg::{Arg, ArgV};
use crate::dim::unified;
use crate::op::{single, unify_dims, with_last, OpError, Operator};
use crate::tensor::{MetaV, TensorMeta};
use vstd::prelude::*;

verus! {

/// The `linear` operator: a projection by a weight stored output-major.
#[derive(Clone, Copy, Debug)]
pub struct Linear;

/// The `matmul` operator.
#[derive(Clone, Copy, Debug)]
pub struct Matmul;

impl Operator for Linear {
    /// Inputs `(x: [.., k], weight: [n, k])`, optionally followed by
    /// `bias: [n]`; no argument; the output is `[.., n]` of the element type
    /// of `x`.
    open spec fn rule(&self, inputs: Seq<MetaV>, arg: Option<ArgV>) -> Result<
        Seq<MetaV>,
        OpError,
    > {
        if arg is Some {
            Err(OpError::ArgError)
        } else if inputs.len() != 2 && inputs.len() != 3 {
            Err(OpError::ShapeError)
        } else if inputs[0].shape.len() < 1 || inputs[1].shape.len() != 2 {
            Err(OpError::ShapeError)
        } else if inputs.len() == 3 && inputs[2].shape.len() != 1 {
            Err(OpError::ShapeError)
        } else if unified(inputs[0].shape.last(), inputs[1].shape[1]) is None {
            Err(OpError::ShapeMismatch)
        } else if inputs.len() == 2 {
            Ok(
                seq![
                    MetaV {
                        dt: inputs[0].dt,
                        shape: inputs[0].shape.drop_last().push(inputs[1].shape[0]),
                    },
                ],
            )
        } else {
            match unified(inputs[1].shape[0], inputs[2].shape[0]) {
                None => Err(OpError::ShapeMismatch),
                Some(n) => Ok(
                    seq![MetaV { dt: inputs[0].dt, shape: inputs[0].shape.drop_last().push(n) }],
                ),
            }
        }
    }

    fn infer(&self, inputs: &[TensorMeta], args: Option<&Arg>) -> (r: Result<
        Vec<TensorMeta>,
        OpError,
    >) {
        if args.is_some() {
            return Err(OpError::ArgError);
        }
        if inputs.len() != 2 && inputs.len() != 3 {
            return Err(OpError::ShapeError);
        }
        let x = &inputs[0];
        let weight = &inputs[1];
        if x.shape.len() < 1 || weight.shape.len() != 2 {
            return Err(OpError::ShapeError);
        }
        if inputs.len() == 3 && inputs[2].shape.len() != 1 {
            return Err(OpError::ShapeError);
        }
        let _ = unify_dims(&x.shape[x.shape.len() - 1], &weight.shape[1])?;
        let n = if inputs.len() == 2 {
            weight.shape[0].duplicate()
        } else {
            unify_dims(&weight.shape[0], &inputs[2].shape[0])?
        };
        Ok(single(TensorMeta::new(x.dt, with_last(x.shape.as_slice(), n))))
    }
}

impl Operator for Matmul {
    /// Inputs `(a: [.., m, k], b: [k, n])`; no argument; `b` is applied to
    /// every leading index of `a`; the output is `[.., m, n]` of the element
    /// type of `a`.
    open spec fn rule(&self, inputs: Seq<MetaV>, arg: Option<ArgV>) -> Result<
        Seq<MetaV>,
        OpError,
    > {
        if arg is Some {
            Err(OpError::ArgError)
        } else if inputs.len() != 2 {
            Err(OpError::ShapeError)
        } else if inputs[0].shape.len() < 2 || inputs[1].shape.len() != 2 {
            Err(OpError::ShapeError)
        } else if unified(inputs[0].shape.last(), inputs[1].shape[0]) is None {
            Err(OpError::ShapeMismatch)
        } else {
            Ok(
                seq![
                    MetaV {
                        dt: inputs[0].dt,
                        shape: inputs[0].shape.drop_last().push(inputs[1].shape[1]),
                    },
                ],
            )
        }
    }

    fn infer(&self, inputs: &[TensorMeta], args: Option<&Arg>) -> (r: Result<
        Vec<TensorMeta>,
        OpError,
    >) {
        if args.is_some() {
            return Err(OpError::ArgError);
        }
        if inputs.len() != 2 {
            return Err(OpError::ShapeError);
        }
        let a = &inputs[0];
        let b = &inputs[1];
        if a.shape.len() < 2 || b.shape.len() != 2 {
            return Err(OpError::ShapeError);
        }
        let _ = unify_dims(&a.shape[a.shape.len() - 1], &b.shape[0])?;
        Ok(single(TensorMeta::new(a.dt, with_last(a.shape.as_slice(), b.shape[1].duplicate()))))
    }
}

} // verus!
