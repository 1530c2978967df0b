//! `rearrange`: copies a tensor into a fresh one of the same meta.

use crate::arg::{Arg, ArgV};
use crate::op::{single, OpError, Operator};
use crate::tensor::{MetaV, TensorMeta};
use vstd::prelude::*;

verus! {

/// The `rearrange` operator.
#[derive(Clone, Copy, Debug)]
pub struct Rearrange;

impl Operator for Rearrange {
    /// No argument is permitted; the one input's meta is the output's.
    open spec fn rule(&self, inputs: Seq<MetaV>, arg: Option<ArgV>) -> Result<
        Seq<MetaV>,
        OpError,
    > {
        if arg is Some {
            Err(OpError::ArgError)
        } else if inputs.len() != 1 {
            Err(OpError::ShapeError)
        } else {
            Ok(seq![inputs[0]])
        }
    }

    fn infer(&self, inputs: &[TensorMeta], args: Option<&Arg>) -> (r: Result<
        Vec<TensorMeta>,
        OpError,
    >) {
        if args.is_some() {
            return Err(OpError::ArgError);
        }
        if inputs.len() != 1 {
            return Err(OpError::ShapeError);
        }
        Ok(single(inputs[0].duplicate()))
    }
}

} // verus!
