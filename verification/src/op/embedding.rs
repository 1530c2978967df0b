//! `embedding`: looks token rows up in a table, optionally adding rows of a
//! positional table.

use crate::arg::{Arg, ArgV};
use crate::dim::{dims_view, unified, Dim};
use crate::op::{single, unify_dims, OpError, Operator};
use crate::tensor::{MetaV, TensorMeta};
use vstd::prelude::*;

verus! {

/// The `embedding` operator.
#[derive(Clone, Copy, Debug)]
pub struct Embedding;

/// The argument is absent or carries image metadata: three integers.
pub open spec fn image_info_ok(arg: Option<ArgV>) -> bool {
    match arg {
        None => true,
        Some(a) => a.as_ints() matches Some(v) && v.len() == 3,
    }
}

impl Operator for Embedding {
    /// Inputs `(table: [v, d], tokens: [n])`, or with a positional table
    /// `(table: [v, d], tokens: [n], positions: [p, d], index: [n])`; the
    /// output is `[n, d]` of the table's element type.
    open spec fn rule(&self, inputs: Seq<MetaV>, arg: Option<ArgV>) -> Result<
        Seq<MetaV>,
        OpError,
    > {
        if !image_info_ok(arg) {
            Err(OpError::ArgError)
        } else if inputs.len() != 2 && inputs.len() != 4 {
            Err(OpError::ShapeError)
        } else if inputs[0].shape.len() != 2 || inputs[1].shape.len() != 1 {
            Err(OpError::ShapeError)
        } else if inputs.len() == 2 {
            Ok(
                seq![
                    MetaV {
                        dt: inputs[0].dt,
                        shape: seq![inputs[1].shape[0], inputs[0].shape[1]],
                    },
                ],
            )
        } else if inputs[2].shape.len() != 2 || inputs[3].shape.len() != 1 {
            Err(OpError::ShapeError)
        } else if inputs[2].dt != inputs[0].dt {
            Err(OpError::DTypeMismatch)
        } else {
            match unified(inputs[0].shape[1], inputs[2].shape[1]) {
                None => Err(OpError::ShapeMismatch),
                Some(d) => match unified(inputs[1].shape[0], inputs[3].shape[0]) {
                    None => Err(OpError::ShapeMismatch),
                    Some(n) => Ok(seq![MetaV { dt: inputs[0].dt, shape: seq![n, d] }]),
                },
            }
        }
    }

    fn infer(&self, inputs: &[TensorMeta], args: Option<&Arg>) -> (r: Result<
        Vec<TensorMeta>,
        OpError,
    >) {
        match args {
            None => {},
            Some(a) => match a.as_ints() {
                Some(v) => {
                    if v.len() != 3 {
                        return Err(OpError::ArgError);
                    }
                },
                None => {
                    return Err(OpError::ArgError);
                },
            },
        }
        if inputs.len() != 2 && inputs.len() != 4 {
            return Err(OpError::ShapeError);
        }
        let table = &inputs[0];
        let tokens = &inputs[1];
        if table.shape.len() != 2 || tokens.shape.len() != 1 {
            return Err(OpError::ShapeError);
        }
        let mut shape: Vec<Dim> = Vec::new();
        if inputs.len() == 2 {
            shape.push(tokens.shape[0].duplicate());
            shape.push(table.shape[1].duplicate());
            proof {
                assert(dims_view(shape@) =~= seq![tokens@.shape[0], table@.shape[1]]);
            }
            return Ok(single(TensorMeta::new(table.dt, shape)));
        }
        let positions = &inputs[2];
        let index = &inputs[3];
        if positions.shape.len() != 2 || index.shape.len() != 1 {
            return Err(OpError::ShapeError);
        }
        if positions.dt != table.dt {
            return Err(OpError::DTypeMismatch);
        }
        let d = unify_dims(&table.shape[1], &positions.shape[1])?;
        let n = unify_dims(&tokens.shape[0], &index.shape[0])?;
        shape.push(n);
        shape.push(d);
        proof {
            assert(dims_view(shape@) =~= seq![n@, d@]);
        }
        Ok(single(TensorMeta::new(table.dt, shape)))
    }
}

} // verus!
