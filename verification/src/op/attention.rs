//! `attention`: scaled dot-product attention over grouped heads.

use crate::arg::{Arg, ArgV};
use crate::dim::{dims_view, unified, Dim};
use crate::op::{concrete, dim_value, single, unify_dims, OpError, Operator};
use crate::tensor::{MetaV, TensorMeta};
use vstd::prelude::*;

verus! {

/// The `attention` operator.
#[derive(Clone, Copy, Debug)]
pub struct Attention;

/// The argument is absent or names the mask.
pub open spec fn mask_ok(arg: Option<ArgV>) -> bool {
    match arg {
        None => true,
        Some(ArgV::Str(_)) => true,
        Some(_) => false,
    }
}

/// The numbers of query heads and of key heads are known, and the first is
/// a multiple of the second.
pub open spec fn heads_group(h: Option<int>, hk: Option<int>) -> bool {
    match (h, hk) {
        (Some(h), Some(hk)) => hk > 0 && h % hk == 0,
        _ => false,
    }
}

impl Operator for Attention {
    /// Inputs `(q: [n, h, dh], k: [l, hk, dh], v: [l, hk, dh])` of one
    /// element type; the argument, if there is one, names the mask; keys and
    /// values unify, the head width unifies, and `h` is a multiple of `hk`;
    /// the output is `[n, h, dh]`.
    open spec fn rule(&self, inputs: Seq<MetaV>, arg: Option<ArgV>) -> Result<
        Seq<MetaV>,
        OpError,
    > {
        if !mask_ok(arg) {
            Err(OpError::ArgError)
        } else if inputs.len() != 3 {
            Err(OpError::ShapeError)
        } else {
            let q = inputs[0];
            let k = inputs[1];
            let v = inputs[2];
            if q.shape.len() != 3 || k.shape.len() != 3 || v.shape.len() != 3 {
                Err(OpError::ShapeError)
            } else if q.dt != k.dt || q.dt != v.dt {
                Err(OpError::DTypeMismatch)
            } else if unified(k.shape[0], v.shape[0]) is None {
                Err(OpError::ShapeMismatch)
            } else {
                match unified(k.shape[1], v.shape[1]) {
                    None => Err(OpError::ShapeMismatch),
                    Some(hk) => match unified(k.shape[2], v.shape[2]) {
                        None => Err(OpError::ShapeMismatch),
                        Some(dh) => match unified(q.shape[2], dh) {
                            None => Err(OpError::ShapeMismatch),
                            Some(dh) => if !heads_group(concrete(q.shape[1]), concrete(hk)) {
                                Err(OpError::ShapeError)
                            } else {
                                Ok(
                                    seq![
                                        MetaV { dt: q.dt, shape: seq![q.shape[0], q.shape[1], dh] },
                                    ],
                                )
                            },
                        },
                    },
                }
            }
        }
    }

    fn infer(&self, inputs: &[TensorMeta], args: Option<&Arg>) -> (r: Result<
        Vec<TensorMeta>,
        OpError,
    >) {
        match args {
            None => {},
            Some(Arg::Str(_)) => {},
            Some(_) => {
                return Err(OpError::ArgError);
            },
        }
        if inputs.len() != 3 {
            return Err(OpError::ShapeError);
        }
        let q = &inputs[0];
        let k = &inputs[1];
        let v = &inputs[2];
        if q.shape.len() != 3 || k.shape.len() != 3 || v.shape.len() != 3 {
            return Err(OpError::ShapeError);
        }
        if q.dt != k.dt || q.dt != v.dt {
            return Err(OpError::DTypeMismatch);
        }
        let _ = unify_dims(&k.shape[0], &v.shape[0])?;
        let hk = unify_dims(&k.shape[1], &v.shape[1])?;
        let dh = unify_dims(&k.shape[2], &v.shape[2])?;
        let dh = unify_dims(&q.shape[2], &dh)?;
        let h = dim_value(&q.shape[1])?;
        let hk = dim_value(&hk)?;
        if hk == 0 || h % hk != 0 {
            return Err(OpError::ShapeError);
        }
        let mut shape: Vec<Dim> = Vec::new();
        shape.push(q.shape[0].duplicate());
        shape.push(q.shape[1].duplicate());
        shape.push(dh);
        proof {
            assert(dims_view(shape@) =~= seq![q@.shape[0], q@.shape[1], dh@]);
        }
        Ok(single(TensorMeta::new(q.dt, shape)))
    }
}

} // verus!
