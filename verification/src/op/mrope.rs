//! `mrope`: rotary position encoding over two or three position axes.

use crate::arg::{Arg, ArgV};
use crate::dim::{dims_view, unified, Dim, DimV};
use crate::op::{single, unify_dims, OpError, Operator};
use crate::tensor::{MetaV, TensorMeta};
use vstd::prelude::*;

verus! {

/// The `mrope` operator.
#[derive(Clone, Copy, Debug)]
pub struct Mrope;

impl Operator for Mrope {
    /// Inputs `(x: [n, h, dh], pos: [n, axes], sin: [ctx, half], cos: [ctx, half])`.
    /// With two position axes no argument is permitted, with three the
    /// argument is the array of section widths. The tables must agree with
    /// each other structurally; `n` must unify between `x` and `pos`.
    open spec fn rule(&self, inputs: Seq<MetaV>, arg: Option<ArgV>) -> Result<
        Seq<MetaV>,
        OpError,
    > {
        if inputs.len() != 4 {
            Err(OpError::ShapeError)
        } else {
            let x = inputs[0];
            let pos = inputs[1];
            let sin = inputs[2];
            let cos = inputs[3];
            if x.shape.len() != 3 || pos.shape.len() != 2 || sin.shape.len() != 2
                || cos.shape.len() != 2 {
                Err(OpError::ShapeError)
            } else if pos.shape[1] == DimV::Int(2) && arg is Some {
                Err(OpError::ArgError)
            } else if pos.shape[1] == DimV::Int(3) && !(arg matches Some(ArgV::Arr(_))) {
                Err(OpError::ArgError)
            } else if pos.shape[1] != DimV::Int(2) && pos.shape[1] != DimV::Int(3) {
                Err(OpError::ShapeError)
            } else if sin.shape[0] != cos.shape[0] || sin.shape[1] != cos.shape[1] {
                Err(OpError::ShapeMismatch)
            } else {
                match unified(x.shape[0], pos.shape[0]) {
                    None => Err(OpError::ShapeMismatch),
                    Some(n) => Ok(
                        seq![MetaV { dt: x.dt, shape: seq![n, x.shape[1], x.shape[2]] }],
                    ),
                }
            }
        }
    }

    fn infer(&self, inputs: &[TensorMeta], args: Option<&Arg>) -> (r: Result<
        Vec<TensorMeta>,
        OpError,
    >) {
        if inputs.len() != 4 {
            return Err(OpError::ShapeError);
        }
        let x = &inputs[0];
        let pos = &inputs[1];
        let sin = &inputs[2];
        let cos = &inputs[3];
        if x.shape.len() != 3 || pos.shape.len() != 2 || sin.shape.len() != 2 || cos.shape.len()
            != 2 {
            return Err(OpError::ShapeError);
        }
        match pos.shape[1].value() {
            Some(2) => {
                if args.is_some() {
                    return Err(OpError::ArgError);
                }
            },
            Some(3) => {
                match args {
                    Some(Arg::Arr(_)) => {},
                    _ => {
                        return Err(OpError::ArgError);
                    },
                }
            },
            _ => {
                return Err(OpError::ShapeError);
            },
        }
        if !sin.shape[0].same(&cos.shape[0]) || !sin.shape[1].same(&cos.shape[1]) {
            return Err(OpError::ShapeMismatch);
        }
        let n = unify_dims(&x.shape[0], &pos.shape[0])?;
        let mut shape: Vec<Dim> = Vec::new();
        shape.push(n);
        shape.push(x.shape[1].duplicate());
        shape.push(x.shape[2].duplicate());
        proof {
            assert(dims_view(shape@) =~= seq![n@, x@.shape[1], x@.shape[2]]);
        }
        Ok(single(TensorMeta::new(x.dt, shape)))
    }
}

} // verus!
