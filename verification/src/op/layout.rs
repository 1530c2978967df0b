//! `transpose`, `tile`, `merge` and `split`: operators that rearrange the
//! axes of a tensor without touching its elements.

use crate::arg::{int_arr, ints_view, sizes_view, texts, Arg, ArgV};
use crate::dim::{dims_view, Dim};
use crate::op::sizes::{
    all_concrete, all_sizes, dict_of, int_dims, int_entry, ints_entry, is_dict_of, product,
    product_of, read_int, read_ints, sizes_from, splice, sum, sum_of, values_of,
};
use crate::op::{concrete, dim_value, single, OpError, Operator};
use crate::tensor::{metas_view, MetaV, TensorMeta};
use vstd::prelude::*;

verus! {

/// The `transpose` operator.
#[derive(Clone, Copy, Debug)]
pub struct Transpose;

/// The `tile` operator.
#[derive(Clone, Copy, Debug)]
pub struct Tile;

/// The `merge` operator.
#[derive(Clone, Copy, Debug)]
pub struct Merge;

/// The `split` operator.
#[derive(Clone, Copy, Debug)]
pub struct Split;

/// `perm` names every axis of a tensor of rank `rank` once.
pub open spec fn is_permutation(perm: Seq<int>, rank: int) -> bool {
    &&& perm.len() == rank
    &&& forall|i: int| 0 <= i < perm.len() ==> 0 <= #[trigger] perm[i] < rank
    &&& forall|i: int, j: int| 0 <= i < j < perm.len() ==> perm[i] != perm[j]
}

/// Whether `perm` names every axis of a tensor of rank `rank` once.
pub fn check_permutation(perm: &Vec<i64>, rank: usize) -> (r: bool)
    ensures
        r == is_permutation(ints_view(perm@), rank as int),
{
    let ghost p = ints_view(perm@);
    if perm.len() != rank {
        return false;
    }
    let mut i: usize = 0;
    while i < perm.len()
        invariant
            i <= perm.len(),
            perm.len() == rank,
            p == ints_view(perm@),
            forall|k: int| 0 <= k < i ==> 0 <= #[trigger] p[k] < rank,
            forall|a: int, b: int| 0 <= a < b < i ==> p[a] != p[b],
        decreases perm.len() - i,
    {
        let v = perm[i];
        if v < 0 || (v as u64) >= (rank as u64) {
            assert(!(0 <= p[i as int] < rank));
            return false;
        }
        let mut j: usize = 0;
        while j < i
            invariant
                j <= i < perm.len(),
                p == ints_view(perm@),
                v == perm@[i as int],
                forall|a: int| 0 <= a < j ==> p[a] != p[i as int],
            decreases i - j,
        {
            if perm[j] == v {
                assert(p[j as int] == p[i as int]);
                return false;
            }
            j += 1;
        }
        i += 1;
    }
    true
}

impl Operator for Transpose {
    /// One input; the argument is a dictionary with the one entry `perm`, a
    /// permutation of the axes; axis `i` of the output is axis `perm[i]` of
    /// the input.
    open spec fn rule(&self, inputs: Seq<MetaV>, arg: Option<ArgV>) -> Result<
        Seq<MetaV>,
        OpError,
    > {
        if !dict_of(arg, seq!["perm"@]) {
            Err(OpError::ArgError)
        } else {
            match ints_entry(arg, "perm"@) {
                None => Err(OpError::ArgError),
                Some(perm) => if inputs.len() != 1 {
                    Err(OpError::ShapeError)
                } else if !is_permutation(perm, inputs[0].shape.len() as int) {
                    Err(OpError::ArgError)
                } else {
                    Ok(
                        seq![
                            MetaV {
                                dt: inputs[0].dt,
                                shape: Seq::new(perm.len(), |i: int| inputs[0].shape[perm[i]]),
                            },
                        ],
                    )
                },
            }
        }
    }

    fn infer(&self, inputs: &[TensorMeta], args: Option<&Arg>) -> (r: Result<
        Vec<TensorMeta>,
        OpError,
    >) {
        let mut keys: Vec<&str> = Vec::new();
        keys.push("perm");
        proof {
            assert(texts(keys@) =~= seq!["perm"@]);
        }
        if !is_dict_of(args, keys.as_slice()) {
            return Err(OpError::ArgError);
        }
        let perm = match read_ints(args, "perm") {
            Some(perm) => perm,
            None => {
                return Err(OpError::ArgError);
            },
        };
        if inputs.len() != 1 {
            return Err(OpError::ShapeError);
        }
        let x = &inputs[0];
        if !check_permutation(&perm, x.shape.len()) {
            return Err(OpError::ArgError);
        }
        let ghost p = ints_view(perm@);
        let mut shape: Vec<Dim> = Vec::new();
        let mut i: usize = 0;
        while i < perm.len()
            invariant
                i <= perm.len(),
                p == ints_view(perm@),
                is_permutation(p, x.shape@.len() as int),
                shape@.len() == i,
                forall|k: int| 0 <= k < i ==> (#[trigger] shape@[k])@ == x.shape@[p[k]]@,
            decreases perm.len() - i,
        {
            assert(0 <= p[i as int] < x.shape@.len());
            shape.push(x.shape[perm[i] as usize].duplicate());
            i += 1;
        }
        proof {
            assert(dims_view(shape@) =~= Seq::new(p.len(), |i: int| x@.shape[p[i]]));
        }
        Ok(single(TensorMeta::new(x.dt, shape)))
    }
}

impl Operator for Tile {
    /// One input; the argument is a dictionary with the entries `axis` and
    /// `tiles`, a list of extents whose product is the extent of
    /// that axis; the axis is replaced by the tiles.
    open spec fn rule(&self, inputs: Seq<MetaV>, arg: Option<ArgV>) -> Result<
        Seq<MetaV>,
        OpError,
    > {
        if !dict_of(arg, seq!["axis"@, "tiles"@]) {
            Err(OpError::ArgError)
        } else {
            match (int_entry(arg, "axis"@), ints_entry(arg, "tiles"@)) {
                (Some(axis), Some(tiles)) => if !all_sizes(tiles, 0) {
                    Err(OpError::ArgError)
                } else if inputs.len() != 1 {
                    Err(OpError::ShapeError)
                } else if !(0 <= axis < inputs[0].shape.len()) {
                    Err(OpError::ArgError)
                } else {
                    match concrete(inputs[0].shape[axis]) {
                        None => Err(OpError::ShapeError),
                        Some(extent) => if product(tiles) != extent {
                            Err(OpError::ShapeMismatch)
                        } else {
                            Ok(
                                seq![
                                    MetaV {
                                        dt: inputs[0].dt,
                                        shape: inputs[0].shape.subrange(0, axis) + int_dims(tiles)
                                            + inputs[0].shape.subrange(
                                            axis + 1,
                                            inputs[0].shape.len() as int,
                                        ),
                                    },
                                ],
                            )
                        },
                    }
                },
                _ => Err(OpError::ArgError),
            }
        }
    }

    fn infer(&self, inputs: &[TensorMeta], args: Option<&Arg>) -> (r: Result<
        Vec<TensorMeta>,
        OpError,
    >) {
        let mut keys: Vec<&str> = Vec::new();
        keys.push("axis");
        keys.push("tiles");
        proof {
            assert(texts(keys@) =~= seq!["axis"@, "tiles"@]);
        }
        if !is_dict_of(args, keys.as_slice()) {
            return Err(OpError::ArgError);
        }
        let (axis, tiles) = match (read_int(args, "axis"), read_ints(args, "tiles")) {
            (Some(axis), Some(tiles)) => (axis, tiles),
            _ => {
                return Err(OpError::ArgError);
            },
        };
        let tiles = match sizes_from(&tiles, 0) {
            Some(tiles) => tiles,
            None => {
                return Err(OpError::ArgError);
            },
        };
        if inputs.len() != 1 {
            return Err(OpError::ShapeError);
        }
        let x = &inputs[0];
        if axis < 0 || (axis as u64) >= (x.shape.len() as u64) {
            return Err(OpError::ArgError);
        }
        let axis = axis as usize;
        let extent = dim_value(&x.shape[axis])?;
        match product_of(tiles.as_slice()) {
            Some(p) => {
                if p != extent {
                    return Err(OpError::ShapeMismatch);
                }
            },
            None => {
                return Err(OpError::ShapeMismatch);
            },
        }
        Ok(
            single(
                TensorMeta::new(x.dt, splice(x.shape.as_slice(), axis, axis + 1, tiles.as_slice())),
            ),
        )
    }
}

impl Operator for Merge {
    /// One input; the argument is a dictionary with the entries `start` and
    /// `len`; the `len` axes from `start` on, all of known extent, are
    /// replaced by one axis whose extent is their product.
    open spec fn rule(&self, inputs: Seq<MetaV>, arg: Option<ArgV>) -> Result<
        Seq<MetaV>,
        OpError,
    > {
        if !dict_of(arg, seq!["start"@, "len"@]) {
            Err(OpError::ArgError)
        } else {
            match (int_entry(arg, "start"@), int_entry(arg, "len"@)) {
                (Some(start), Some(len)) => if start < 0 || len < 1 {
                    Err(OpError::ArgError)
                } else if inputs.len() != 1 {
                    Err(OpError::ShapeError)
                } else if start + len > inputs[0].shape.len() {
                    Err(OpError::ArgError)
                } else {
                    match all_concrete(inputs[0].shape.subrange(start, start + len)) {
                        None => Err(OpError::ShapeError),
                        Some(extents) => if product(extents) > usize::MAX {
                            Err(OpError::ShapeError)
                        } else {
                            Ok(
                                seq![
                                    MetaV {
                                        dt: inputs[0].dt,
                                        shape: inputs[0].shape.subrange(0, start) + int_dims(
                                            seq![product(extents)],
                                        ) + inputs[0].shape.subrange(
                                            start + len,
                                            inputs[0].shape.len() as int,
                                        ),
                                    },
                                ],
                            )
                        },
                    }
                },
                _ => Err(OpError::ArgError),
            }
        }
    }

    fn infer(&self, inputs: &[TensorMeta], args: Option<&Arg>) -> (r: Result<
        Vec<TensorMeta>,
        OpError,
    >) {
        let mut keys: Vec<&str> = Vec::new();
        keys.push("start");
        keys.push("len");
        proof {
            assert(texts(keys@) =~= seq!["start"@, "len"@]);
        }
        if !is_dict_of(args, keys.as_slice()) {
            return Err(OpError::ArgError);
        }
        let (start, len) = match (read_int(args, "start"), read_int(args, "len")) {
            (Some(start), Some(len)) => (start, len),
            _ => {
                return Err(OpError::ArgError);
            },
        };
        if start < 0 || len < 1 {
            return Err(OpError::ArgError);
        }
        if inputs.len() != 1 {
            return Err(OpError::ShapeError);
        }
        let x = &inputs[0];
        let rank = x.shape.len() as u64;
        if (start as u64) > rank || (len as u64) > rank - (start as u64) {
            return Err(OpError::ArgError);
        }
        let start = start as usize;
        let end = start + len as usize;
        let merged = vstd::slice::slice_subrange(x.shape.as_slice(), start, end);
        proof {
            assert(dims_view(merged@) =~= x@.shape.subrange(start as int, end as int));
        }
        let extents = values_of(merged)?;
        let extent = match product_of(extents.as_slice()) {
            Some(p) => p,
            None => {
                return Err(OpError::ShapeError);
            },
        };
        let mut mid: Vec<usize> = Vec::new();
        mid.push(extent);
        proof {
            assert(sizes_view(mid@) =~= seq![product(sizes_view(extents@))]);
        }
        Ok(single(TensorMeta::new(x.dt, splice(x.shape.as_slice(), start, end, mid.as_slice()))))
    }
}

/// The metas of the parts of a tensor of meta `x` cut along `axis` into
/// pieces of the extents `parts`.
pub open spec fn split_metas(x: MetaV, axis: int, parts: Seq<int>) -> Seq<MetaV> {
    Seq::new(
        parts.len(),
        |i: int|
            MetaV {
                dt: x.dt,
                shape: x.shape.subrange(0, axis) + int_dims(seq![parts[i]]) + x.shape.subrange(
                    axis + 1,
                    x.shape.len() as int,
                ),
            },
    )
}

impl Operator for Split {
    /// One input; the argument is a dictionary with the entries `axis` and
    /// `parts`, a list of extents whose sum is the extent of that axis;
    /// there is one output for each part, with that extent along the axis.
    open spec fn rule(&self, inputs: Seq<MetaV>, arg: Option<ArgV>) -> Result<
        Seq<MetaV>,
        OpError,
    > {
        if !dict_of(arg, seq!["axis"@, "parts"@]) {
            Err(OpError::ArgError)
        } else {
            match (int_entry(arg, "axis"@), ints_entry(arg, "parts"@)) {
                (Some(axis), Some(parts)) => if !all_sizes(parts, 0) {
                    Err(OpError::ArgError)
                } else if inputs.len() != 1 {
                    Err(OpError::ShapeError)
                } else if !(0 <= axis < inputs[0].shape.len()) {
                    Err(OpError::ArgError)
                } else {
                    match concrete(inputs[0].shape[axis]) {
                        None => Err(OpError::ShapeError),
                        Some(extent) => if sum(parts) != extent {
                            Err(OpError::ShapeMismatch)
                        } else {
                            Ok(split_metas(inputs[0], axis, parts))
                        },
                    }
                },
                _ => Err(OpError::ArgError),
            }
        }
    }

    fn infer(&self, inputs: &[TensorMeta], args: Option<&Arg>) -> (r: Result<
        Vec<TensorMeta>,
        OpError,
    >) {
        let mut keys: Vec<&str> = Vec::new();
        keys.push("axis");
        keys.push("parts");
        proof {
            assert(texts(keys@) =~= seq!["axis"@, "parts"@]);
        }
        if !is_dict_of(args, keys.as_slice()) {
            return Err(OpError::ArgError);
        }
        let (axis, parts) = match (read_int(args, "axis"), read_ints(args, "parts")) {
            (Some(axis), Some(parts)) => (axis, parts),
            _ => {
                return Err(OpError::ArgError);
            },
        };
        let parts = match sizes_from(&parts, 0) {
            Some(parts) => parts,
            None => {
                return Err(OpError::ArgError);
            },
        };
        if inputs.len() != 1 {
            return Err(OpError::ShapeError);
        }
        let x = &inputs[0];
        if axis < 0 || (axis as u64) >= (x.shape.len() as u64) {
            return Err(OpError::ArgError);
        }
        let axis = axis as usize;
        let extent = dim_value(&x.shape[axis])?;
        match sum_of(parts.as_slice()) {
            Some(s) => {
                if s != extent {
                    return Err(OpError::ShapeMismatch);
                }
            },
            None => {
                return Err(OpError::ShapeMismatch);
            },
        }
        Ok(split_parts(x, axis, &parts))
    }
}

/// The metas of the parts of a tensor of meta `x` cut along `axis` into
/// pieces of the extents `parts`.
pub fn split_parts(x: &TensorMeta, axis: usize, parts: &Vec<usize>) -> (r: Vec<TensorMeta>)
    requires
        axis < x.shape@.len(),
    ensures
        metas_view(r@) == split_metas(x@, axis as int, sizes_view(parts@)),
{
    let rank = x.shape.len();
    let end = axis + 1;
    let mut out: Vec<TensorMeta> = Vec::new();
    let mut i: usize = 0;
    while i < parts.len()
        invariant
            i <= parts.len(),
            axis < x.shape@.len(),
            end == axis + 1,
            out@.len() == i,
            forall|k: int|
                0 <= k < i ==> (#[trigger] out@[k])@ == split_metas(
                    x@,
                    axis as int,
                    sizes_view(parts@),
                )[k],
        decreases parts.len() - i,
    {
        let mut mid: Vec<usize> = Vec::new();
        mid.push(parts[i]);
        proof {
            assert(sizes_view(mid@) =~= seq![sizes_view(parts@)[i as int]]);
        }
        out.push(TensorMeta::new(x.dt, splice(x.shape.as_slice(), axis, end, mid.as_slice())));
        i += 1;
    }
    proof {
        assert(metas_view(out@) =~= split_metas(x@, axis as int, sizes_view(parts@)));
    }
    out
}

/// The argument of a `transpose` by `perm`.
pub open spec fn perm_arg(perm: Seq<int>) -> ArgV {
    ArgV::Dict(seq![("perm"@, int_arr(perm))])
}

/// The argument of a `tile` of `axis` into `tiles`.
pub open spec fn tile_arg(axis: int, tiles: Seq<int>) -> ArgV {
    ArgV::Dict(seq![("axis"@, ArgV::Int(axis)), ("tiles"@, int_arr(tiles))])
}

/// The argument of a `merge` of the `len` axes from `start` on.
pub open spec fn merge_arg(start: int, len: int) -> ArgV {
    ArgV::Dict(seq![("start"@, ArgV::Int(start)), ("len"@, ArgV::Int(len))])
}

/// The argument of a `split` of `axis` into `parts`.
pub open spec fn split_arg(axis: int, parts: Seq<int>) -> ArgV {
    ArgV::Dict(seq![("axis"@, ArgV::Int(axis)), ("parts"@, int_arr(parts))])
}

/// Every one of `vals` fits the integers of an argument.
pub open spec fn fit(vals: Seq<usize>) -> bool {
    forall|i: int| 0 <= i < vals.len() ==> vals[i] <= i64::MAX
}

/// The argument of a `transpose` by `perm`.
pub fn transpose_by(perm: &[usize]) -> (r: Arg)
    requires
        fit(perm@),
    ensures
        r@ == perm_arg(sizes_view(perm@)),
{
    Arg::dict1("perm", Arg::ints(perm))
}

/// The argument of a `tile` of `axis` into `tiles`.
pub fn tile_into(axis: usize, tiles: &[usize]) -> (r: Arg)
    requires
        axis <= i64::MAX,
        fit(tiles@),
    ensures
        r@ == tile_arg(axis as int, sizes_view(tiles@)),
{
    Arg::dict2("axis", Arg::Int(axis as i64), "tiles", Arg::ints(tiles))
}

/// The argument of a `merge` of the `len` axes from `start` on.
pub fn merge_from(start: usize, len: usize) -> (r: Arg)
    requires
        start <= i64::MAX,
        len <= i64::MAX,
    ensures
        r@ == merge_arg(start as int, len as int),
{
    Arg::dict2("start", Arg::Int(start as i64), "len", Arg::Int(len as i64))
}

/// The argument of a `split` of `axis` into `parts`.
pub fn split_into(axis: usize, parts: &[usize]) -> (r: Arg)
    requires
        axis <= i64::MAX,
        fit(parts@),
    ensures
        r@ == split_arg(axis as int, sizes_view(parts@)),
{
    Arg::dict2("axis", Arg::Int(axis as i64), "parts", Arg::ints(parts))
}

} // verus!
