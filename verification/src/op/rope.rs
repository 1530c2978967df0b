//! `rope`: rotary position encoding.

use crate::arg::{Arg, ArgV};
use crate::dim::{dims_view, unified, Dim, DimV};
use crate::op::{concrete, single, unify_dims, OpError, Operator};
use crate::tensor::{MetaV, TensorMeta};
use vstd::prelude::*;

verus! {

/// The `rope` operator.
#[derive(Clone, Copy, Debug)]
pub struct Rope;

/// A head width and a table width that are both known disagree: the table
/// must be half as wide as the head.
pub open spec fn half_clash(head: DimV, half: DimV) -> bool {
    match (concrete(head), concrete(half)) {
        (Some(dh), Some(h)) => dh != 2 * h,
        _ => false,
    }
}

impl Operator for Rope {
    /// Inputs `(x: [n, h, dh], pos: [n], sin: [ctx, dh / 2], cos: [ctx, dh / 2])`;
    /// no argument; the two tables agree structurally; the output has the
    /// meta of `x` with `n` unified.
    open spec fn rule(&self, inputs: Seq<MetaV>, arg: Option<ArgV>) -> Result<
        Seq<MetaV>,
        OpError,
    > {
        if arg is Some {
            Err(OpError::ArgError)
        } else if inputs.len() != 4 {
            Err(OpError::ShapeError)
        } else {
            let x = inputs[0];
            let pos = inputs[1];
            let sin = inputs[2];
            let cos = inputs[3];
            if x.shape.len() != 3 || pos.shape.len() != 1 || sin.shape.len() != 2
                || cos.shape.len() != 2 {
                Err(OpError::ShapeError)
            } else if sin.shape[0] != cos.shape[0] || sin.shape[1] != cos.shape[1] {
                Err(OpError::ShapeMismatch)
            } else if half_clash(x.shape[2], sin.shape[1]) {
                Err(OpError::ShapeMismatch)
            } else {
                match unified(x.shape[0], pos.shape[0]) {
                    None => Err(OpError::ShapeMismatch),
                    Some(n) => Ok(
                        seq![MetaV { dt: x.dt, shape: seq![n, x.shape[1], x.shape[2]] }],
                    ),
                }
            }
        }
    }

    fn infer(&self, inputs: &[TensorMeta], args: Option<&Arg>) -> (r: Result<
        Vec<TensorMeta>,
        OpError,
    >) {
        if args.is_some() {
            return Err(OpError::ArgError);
        }
        if inputs.len() != 4 {
            return Err(OpError::ShapeError);
        }
        let x = &inputs[0];
        let pos = &inputs[1];
        let sin = &inputs[2];
        let cos = &inputs[3];
        if x.shape.len() != 3 || pos.shape.len() != 1 || sin.shape.len() != 2 || cos.shape.len()
            != 2 {
            return Err(OpError::ShapeError);
        }
        if !sin.shape[0].same(&cos.shape[0]) || !sin.shape[1].same(&cos.shape[1]) {
            return Err(OpError::ShapeMismatch);
        }
        match (x.shape[2].value(), sin.shape[1].value()) {
            (Some(dh), Some(h)) => {
                if dh % 2 != 0 || dh / 2 != h {
                    return Err(OpError::ShapeMismatch);
                }
            },
            _ => {},
        }
        let n = unify_dims(&x.shape[0], &pos.shape[0])?;
        let mut shape: Vec<Dim> = Vec::new();
        shape.push(n);
        shape.push(x.shape[1].duplicate());
        shape.push(x.shape[2].duplicate());
        proof {
            assert(dims_view(shape@) =~= seq![n@, x@.shape[1], x@.shape[2]]);
        }
        Ok(single(TensorMeta::new(x.dt, shape)))
    }
}

} // verus!
