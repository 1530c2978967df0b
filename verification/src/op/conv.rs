//! `conv`: two-dimensional convolution.

use crate::arg::{sizes_view, texts, Arg, ArgV};
use crate::dim::{dims_view, unified, Dim, DimV};
use crate::op::sizes::{all_sizes, dict_of, ints_entry, is_dict_of, read_ints, sizes_from};
use crate::op::{arg_value, concrete, dim_value, single, unify_dims, OpError, Operator};
use crate::tensor::{MetaV, TensorMeta};
use vstd::prelude::*;

verus! {

/// The `conv` operator.
#[derive(Clone, Copy, Debug)]
pub struct Conv;

/// Strides, dilations and pads of a convolution, for the two image axes.
/// The pads are given as top, left, bottom, right.
pub struct Geometry {
    pub strides: Seq<int>,
    pub dilations: Seq<int>,
    pub pads: Seq<int>,
}

/// The geometry that the argument asks for, on a kernel of `kh` by `kw`:
/// without an argument the kernel is moved by its own size, undilated and
/// unpadded.
pub open spec fn geometry(arg: Option<ArgV>, kh: int, kw: int) -> Option<Geometry> {
    if arg is None {
        Some(Geometry { strides: seq![kh, kw], dilations: seq![1, 1], pads: seq![0, 0, 0, 0] })
    } else if !dict_of(arg, seq!["strides"@, "dilations"@, "pads"@]) {
        None
    } else {
        match (
            ints_entry(arg, "strides"@),
            ints_entry(arg, "dilations"@),
            ints_entry(arg, "pads"@),
        ) {
            (Some(strides), Some(dilations), Some(pads)) => if strides.len() == 2
                && dilations.len() == 2 && pads.len() == 4 && all_sizes(strides, 1) && all_sizes(
                dilations,
                1,
            ) && all_sizes(pads, 0) {
                Some(Geometry { strides, dilations, pads })
            } else {
                None
            },
            _ => None,
        }
    }
}

/// Extent of the output along an axis of extent `h` for a kernel of extent
/// `k`: the number of places at which the dilated kernel fits into the
/// padded axis, `stride` apart.
pub open spec fn conv_extent(h: int, k: int, stride: int, dilation: int, before: int, after: int)
    -> Option<int> {
    let padded = h + before + after;
    let span = dilation * (k - 1) + 1;
    if k < 1 || stride < 1 || padded > usize::MAX || span > padded {
        None
    } else {
        Some((padded - span) / stride + 1)
    }
}

/// Extent of the output of a convolution along one axis.
pub fn conv_len(h: usize, k: usize, stride: usize, dilation: usize, before: usize, after: usize)
    -> (r: Option<usize>)
    ensures
        match r {
            Some(n) => conv_extent(
                h as int,
                k as int,
                stride as int,
                dilation as int,
                before as int,
                after as int,
            ) == Some(n as int),
            None => conv_extent(
                h as int,
                k as int,
                stride as int,
                dilation as int,
                before as int,
                after as int,
            ) is None,
        },
{
    if k < 1 || stride < 1 {
        return None;
    }
    let padded = match h.checked_add(before) {
        Some(p) => match p.checked_add(after) {
            Some(p) => p,
            None => {
                return None;
            },
        },
        None => {
            return None;
        },
    };
    let span = match dilation.checked_mul(k - 1) {
        Some(s) => match s.checked_add(1) {
            Some(s) => s,
            None => {
                return None;
            },
        },
        None => {
            return None;
        },
    };
    if span > padded {
        return None;
    }
    let room = padded - span;
    proof {
        assert(room as int / stride as int <= room) by (nonlinear_arith)
            requires
                room >= 0,
                stride >= 1,
        ;
    }
    Some(room / stride + 1)
}

impl Operator for Conv {
    /// Inputs `(x: [n, c, h, w], kernel: [m, c, kh, kw], bias: [m])` of one
    /// element type, with `h`, `w`, `kh` and `kw` known; the argument, if
    /// there is one, is a dictionary with `strides`, `dilations` and `pads`;
    /// the output is `[n, m, h', w']`.
    open spec fn rule(&self, inputs: Seq<MetaV>, arg: Option<ArgV>) -> Result<
        Seq<MetaV>,
        OpError,
    > {
        if inputs.len() != 3 {
            Err(OpError::ShapeError)
        } else {
            let x = inputs[0];
            let kernel = inputs[1];
            let bias = inputs[2];
            if x.shape.len() != 4 || kernel.shape.len() != 4 || bias.shape.len() != 1 {
                Err(OpError::ShapeError)
            } else if x.dt != kernel.dt || x.dt != bias.dt {
                Err(OpError::DTypeMismatch)
            } else {
                match (
                    concrete(x.shape[2]),
                    concrete(x.shape[3]),
                    concrete(kernel.shape[2]),
                    concrete(kernel.shape[3]),
                ) {
                    (Some(h), Some(w), Some(kh), Some(kw)) => match geometry(arg, kh, kw) {
                        None => Err(OpError::ArgError),
                        Some(g) => if unified(x.shape[1], kernel.shape[1]) is None {
                            Err(OpError::ShapeMismatch)
                        } else {
                            match unified(kernel.shape[0], bias.shape[0]) {
                                None => Err(OpError::ShapeMismatch),
                                Some(m) => match (
                                    conv_extent(
                                        h,
                                        kh,
                                        g.strides[0],
                                        g.dilations[0],
                                        g.pads[0],
                                        g.pads[2],
                                    ),
                                    conv_extent(
                                        w,
                                        kw,
                                        g.strides[1],
                                        g.dilations[1],
                                        g.pads[1],
                                        g.pads[3],
                                    ),
                                ) {
                                    (Some(oh), Some(ow)) => Ok(
                                        seq![
                                            MetaV {
                                                dt: x.dt,
                                                shape: seq![
                                                    x.shape[0],
                                                    m,
                                                    DimV::Int(oh),
                                                    DimV::Int(ow),
                                                ],
                                            },
                                        ],
                                    ),
                                    _ => Err(OpError::ShapeError),
                                },
                            }
                        },
                    },
                    _ => Err(OpError::ShapeError),
                }
            }
        }
    }

    fn infer(&self, inputs: &[TensorMeta], args: Option<&Arg>) -> (r: Result<
        Vec<TensorMeta>,
        OpError,
    >) {
        if inputs.len() != 3 {
            return Err(OpError::ShapeError);
        }
        let x = &inputs[0];
        let kernel = &inputs[1];
        let bias = &inputs[2];
        if x.shape.len() != 4 || kernel.shape.len() != 4 || bias.shape.len() != 1 {
            return Err(OpError::ShapeError);
        }
        if x.dt != kernel.dt || x.dt != bias.dt {
            return Err(OpError::DTypeMismatch);
        }
        let h = dim_value(&x.shape[2])?;
        let w = dim_value(&x.shape[3])?;
        let kh = dim_value(&kernel.shape[2])?;
        let kw = dim_value(&kernel.shape[3])?;
        let (strides, dilations, pads) = match read_geometry(args, kh, kw) {
            Some(g) => g,
            None => {
                return Err(OpError::ArgError);
            },
        };
        let _ = unify_dims(&x.shape[1], &kernel.shape[1])?;
        let m = unify_dims(&kernel.shape[0], &bias.shape[0])?;
        let (oh, ow) = match (
            conv_len(h, kh, strides[0], dilations[0], pads[0], pads[2]),
            conv_len(w, kw, strides[1], dilations[1], pads[1], pads[3]),
        ) {
            (Some(oh), Some(ow)) => (oh, ow),
            _ => {
                return Err(OpError::ShapeError);
            },
        };
        let mut shape: Vec<Dim> = Vec::new();
        shape.push(x.shape[0].duplicate());
        shape.push(m);
        shape.push(Dim::Int(oh));
        shape.push(Dim::Int(ow));
        proof {
            assert(dims_view(shape@) =~= seq![
                x@.shape[0],
                m@,
                DimV::Int(oh as int),
                DimV::Int(ow as int),
            ]);
        }
        Ok(single(TensorMeta::new(x.dt, shape)))
    }
}

/// Reads strides, dilations and pads from the argument.
pub fn read_geometry(args: Option<&Arg>, kh: usize, kw: usize) -> (r: Option<
    (Vec<usize>, Vec<usize>, Vec<usize>),
>)
    ensures
        match r {
            Some((strides, dilations, pads)) => geometry(arg_value(args), kh as int, kw as int)
                == Some(
                Geometry {
                    strides: sizes_view(strides@),
                    dilations: sizes_view(dilations@),
                    pads: sizes_view(pads@),
                },
            ) && strides@.len() == 2 && dilations@.len() == 2 && pads@.len() == 4,
            None => geometry(arg_value(args), kh as int, kw as int) is None,
        },
{
    if args.is_none() {
        let mut strides: Vec<usize> = Vec::new();
        strides.push(kh);
        strides.push(kw);
        let mut dilations: Vec<usize> = Vec::new();
        dilations.push(1);
        dilations.push(1);
        let mut pads: Vec<usize> = Vec::new();
        pads.push(0);
        pads.push(0);
        pads.push(0);
        pads.push(0);
        proof {
            assert(sizes_view(strides@) =~= seq![kh as int, kw as int]);
            assert(sizes_view(dilations@) =~= seq![1, 1]);
            assert(sizes_view(pads@) =~= seq![0, 0, 0, 0]);
        }
        return Some((strides, dilations, pads));
    }
    let mut keys: Vec<&str> = Vec::new();
    keys.push("strides");
    keys.push("dilations");
    keys.push("pads");
    proof {
        assert(texts(keys@) =~= seq!["strides"@, "dilations"@, "pads"@]);
    }
    if !is_dict_of(args, keys.as_slice()) {
        return None;
    }
    let (strides, dilations, pads) = match (
        read_ints(args, "strides"),
        read_ints(args, "dilations"),
        read_ints(args, "pads"),
    ) {
        (Some(s), Some(d), Some(p)) => (s, d, p),
        _ => {
            return None;
        },
    };
    if strides.len() != 2 || dilations.len() != 2 || pads.len() != 4 {
        return None;
    }
    match (sizes_from(&strides, 1), sizes_from(&dilations, 1), sizes_from(&pads, 0)) {
        (Some(s), Some(d), Some(p)) => Some((s, d, p)),
        _ => None,
    }
}

} // verus!
