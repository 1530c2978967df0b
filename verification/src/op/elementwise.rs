//! `add` and `mul`: element-wise operators with broadcasting.

use crate::arg::{Arg, ArgV};
use crate::dim::{dims_view, unified, Dim, DimV};
use crate::op::{agrees, arg_value, single, OpError, Operator};
use crate::tensor::{metas_view, MetaV, TensorMeta};
use vstd::prelude::*;

verus! {

/// The `add` operator.
#[derive(Clone, Copy, Debug)]
pub struct Add;

/// The `mul` operator.
#[derive(Clone, Copy, Debug)]
pub struct Mul;

/// The extent that two extents broadcast to: an extent of one yields to the
/// other, any other pair has to unify.
pub open spec fn broadcast(a: DimV, b: DimV) -> Option<DimV> {
    if a == DimV::Int(1) {
        Some(b)
    } else if b == DimV::Int(1) {
        Some(a)
    } else {
        unified(a, b)
    }
}

/// The extent of axis `i` of `shape` once it is aligned to the right in a
/// shape of rank `rank`: the axes that it lacks in front have extent one.
pub open spec fn aligned(shape: Seq<DimV>, rank: int, i: int) -> DimV {
    if i < rank - shape.len() {
        DimV::Int(1)
    } else {
        shape[i - (rank - shape.len())]
    }
}

/// The larger of two ranks.
pub open spec fn wider(a: int, b: int) -> int {
    if a >= b {
        a
    } else {
        b
    }
}

/// Broadcast of two shapes: they are aligned to the right and broadcast
/// extent by extent.
pub open spec fn broadcast_shapes(a: Seq<DimV>, b: Seq<DimV>) -> Option<Seq<DimV>> {
    let rank = wider(a.len() as int, b.len() as int);
    if forall|i: int|
        0 <= i < rank ==> (#[trigger] broadcast(aligned(a, rank, i), aligned(b, rank, i))) is Some {
        Some(
            Seq::new(
                rank as nat,
                |i: int| broadcast(aligned(a, rank, i), aligned(b, rank, i))->0,
            ),
        )
    } else {
        None
    }
}

/// What `add` and `mul` give: inputs `(a, b)` of the same element type, no
/// argument; the output has the broadcast shape.
pub open spec fn elementwise_rule(inputs: Seq<MetaV>, arg: Option<ArgV>) -> Result<
    Seq<MetaV>,
    OpError,
> {
    if arg is Some {
        Err(OpError::ArgError)
    } else if inputs.len() != 2 {
        Err(OpError::ShapeError)
    } else if inputs[0].dt != inputs[1].dt {
        Err(OpError::DTypeMismatch)
    } else {
        match broadcast_shapes(inputs[0].shape, inputs[1].shape) {
            None => Err(OpError::ShapeMismatch),
            Some(shape) => Ok(seq![MetaV { dt: inputs[0].dt, shape }]),
        }
    }
}

/// Broadcasts two extents.
pub fn broadcast_dims(a: &Dim, b: &Dim) -> (r: Option<Dim>)
    ensures
        match r {
            Some(d) => broadcast(a@, b@) == Some(d@),
            None => broadcast(a@, b@) is None,
        },
{
    match a.value() {
        Some(1) => {
            return Some(b.duplicate());
        },
        _ => {},
    }
    match b.value() {
        Some(1) => {
            return Some(a.duplicate());
        },
        _ => {},
    }
    a.unify(b)
}

/// The extent of axis `i` of `shape` once it is aligned to the right in a
/// shape of rank `rank`.
pub fn align(shape: &[Dim], rank: usize, i: usize) -> (r: Dim)
    requires
        shape@.len() <= rank,
        i < rank,
    ensures
        r@ == aligned(dims_view(shape@), rank as int, i as int),
{
    let lead = rank - shape.len();
    if i < lead {
        Dim::Int(1)
    } else {
        shape[i - lead].duplicate()
    }
}

/// Broadcasts two shapes.
pub fn broadcast_all(a: &[Dim], b: &[Dim]) -> (r: Result<Vec<Dim>, OpError>)
    ensures
        match r {
            Ok(v) => broadcast_shapes(dims_view(a@), dims_view(b@)) == Some(dims_view(v@)),
            Err(e) => broadcast_shapes(dims_view(a@), dims_view(b@)) is None && e
                == OpError::ShapeMismatch,
        },
{
    let ghost av = dims_view(a@);
    let ghost bv = dims_view(b@);
    let rank = if a.len() >= b.len() {
        a.len()
    } else {
        b.len()
    };
    let mut shape: Vec<Dim> = Vec::new();
    let mut i: usize = 0;
    while i < rank
        invariant
            i <= rank,
            rank == wider(a@.len() as int, b@.len() as int),
            av == dims_view(a@),
            bv == dims_view(b@),
            shape@.len() == i,
            forall|k: int|
                0 <= k < i ==> (#[trigger] broadcast(
                    aligned(av, rank as int, k),
                    aligned(bv, rank as int, k),
                )) == Some(shape@[k]@),
        decreases rank - i,
    {
        let da = align(a, rank, i);
        let db = align(b, rank, i);
        match broadcast_dims(&da, &db) {
            Some(d) => {
                shape.push(d);
            },
            None => {
                assert(broadcast(aligned(av, rank as int, i as int), aligned(bv, rank as int, i as int))
                    is None);
                return Err(OpError::ShapeMismatch);
            },
        }
        i += 1;
    }
    proof {
        assert(broadcast_shapes(av, bv).unwrap() =~= dims_view(shape@));
    }
    Ok(shape)
}

/// Runs the rule of `add` and `mul`.
pub fn infer_elementwise(inputs: &[TensorMeta], args: Option<&Arg>) -> (r: Result<
    Vec<TensorMeta>,
    OpError,
>)
    ensures
        agrees(r, elementwise_rule(metas_view(inputs@), arg_value(args))),
{
    if args.is_some() {
        return Err(OpError::ArgError);
    }
    if inputs.len() != 2 {
        return Err(OpError::ShapeError);
    }
    let a = &inputs[0];
    let b = &inputs[1];
    if a.dt != b.dt {
        return Err(OpError::DTypeMismatch);
    }
    let shape = broadcast_all(a.shape.as_slice(), b.shape.as_slice())?;
    Ok(single(TensorMeta::new(a.dt, shape)))
}

impl Operator for Add {
    open spec fn rule(&self, inputs: Seq<MetaV>, arg: Option<ArgV>) -> Result<
        Seq<MetaV>,
        OpError,
    > {
        elementwise_rule(inputs, arg)
    }

    fn infer(&self, inputs: &[TensorMeta], args: Option<&Arg>) -> (r: Result<
        Vec<TensorMeta>,
        OpError,
    >) {
        infer_elementwise(inputs, args)
    }
}

impl Operator for Mul {
    open spec fn rule(&self, inputs: Seq<MetaV>, arg: Option<ArgV>) -> Result<
        Seq<MetaV>,
        OpError,
    > {
        elementwise_rule(inputs, arg)
    }

    fn infer(&self, inputs: &[TensorMeta], args: Option<&Arg>) -> (r: Result<
        Vec<TensorMeta>,
        OpError,
    >) {
        infer_elementwise(inputs, args)
    }
}

} // verus!
