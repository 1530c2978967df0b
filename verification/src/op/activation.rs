//! `swiglu`, `gelu` and `softmax`: operators that keep the meta of what
//! they are applied to.

use crate::arg::{Arg, ArgV};
use crate::op::{single, unified_shapes, unify_shapes, OpError, Operator};
use crate::tensor::{MetaV, TensorMeta};
use vstd::prelude::*;

verus! {

/// The `swiglu` operator.
#[derive(Clone, Copy, Debug)]
pub struct Swiglu;

/// The `gelu` operator.
#[derive(Clone, Copy, Debug)]
pub struct Gelu;

/// The `softmax` operator.
#[derive(Clone, Copy, Debug)]
pub struct Softmax;

impl Operator for Swiglu {
    /// Inputs `(gate, up)` of the same element type and rank, whose shapes
    /// unify; no argument; the output has the unified shape.
    open spec fn rule(&self, inputs: Seq<MetaV>, arg: Option<ArgV>) -> Result<
        Seq<MetaV>,
        OpError,
    > {
        if arg is Some {
            Err(OpError::ArgError)
        } else if inputs.len() != 2 {
            Err(OpError::ShapeError)
        } else if inputs[0].shape.len() != inputs[1].shape.len() {
            Err(OpError::ShapeError)
        } else if inputs[0].dt != inputs[1].dt {
            Err(OpError::DTypeMismatch)
        } else {
            match unified_shapes(inputs[0].shape, inputs[1].shape) {
                None => Err(OpError::ShapeMismatch),
                Some(shape) => Ok(seq![MetaV { dt: inputs[0].dt, shape }]),
            }
        }
    }

    fn infer(&self, inputs: &[TensorMeta], args: Option<&Arg>) -> (r: Result<
        Vec<TensorMeta>,
        OpError,
    >) {
        if args.is_some() {
            return Err(OpError::ArgError);
        }
        if inputs.len() != 2 {
            return Err(OpError::ShapeError);
        }
        let gate = &inputs[0];
        let up = &inputs[1];
        if gate.shape.len() != up.shape.len() {
            return Err(OpError::ShapeError);
        }
        if gate.dt != up.dt {
            return Err(OpError::DTypeMismatch);
        }
        let shape = unify_shapes(gate.shape.as_slice(), up.shape.as_slice())?;
        Ok(single(TensorMeta::new(gate.dt, shape)))
    }
}

impl Operator for Gelu {
    /// One input, no argument; the output has the input's meta.
    open spec fn rule(&self, inputs: Seq<MetaV>, arg: Option<ArgV>) -> Result<
        Seq<MetaV>,
        OpError,
    > {
        if arg is Some {
            Err(OpError::ArgError)
        } else if inputs.len() != 1 {
            Err(OpError::ShapeError)
        } else {
            Ok(seq![inputs[0]])
        }
    }

    fn infer(&self, inputs: &[TensorMeta], args: Option<&Arg>) -> (r: Result<
        Vec<TensorMeta>,
        OpError,
    >) {
        if args.is_some() {
            return Err(OpError::ArgError);
        }
        if inputs.len() != 1 {
            return Err(OpError::ShapeError);
        }
        Ok(single(inputs[0].duplicate()))
    }
}

/// The argument is absent, or an axis of a tensor of rank `rank`.
pub open spec fn axis_ok(arg: Option<ArgV>, rank: int) -> bool {
    match arg {
        None => true,
        Some(ArgV::Int(axis)) => 0 <= axis < rank,
        Some(_) => false,
    }
}

impl Operator for Softmax {
    /// One input; the argument, if there is one, is the axis; the output
    /// has the input's meta.
    open spec fn rule(&self, inputs: Seq<MetaV>, arg: Option<ArgV>) -> Result<
        Seq<MetaV>,
        OpError,
    > {
        if inputs.len() != 1 {
            Err(OpError::ShapeError)
        } else if !axis_ok(arg, inputs[0].shape.len() as int) {
            Err(OpError::ArgError)
        } else {
            Ok(seq![inputs[0]])
        }
    }

    fn infer(&self, inputs: &[TensorMeta], args: Option<&Arg>) -> (r: Result<
        Vec<TensorMeta>,
        OpError,
    >) {
        if inputs.len() != 1 {
            return Err(OpError::ShapeError);
        }
        match args {
            None => {},
            Some(Arg::Int(axis)) => {
                if *axis < 0 || (*axis as u64) >= (inputs[0].shape.len() as u64) {
                    return Err(OpError::ArgError);
                }
            },
            Some(_) => {
                return Err(OpError::ArgError);
            },
        }
        Ok(single(inputs[0].duplicate()))
    }
}

} // verus!
