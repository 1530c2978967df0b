//! Operators: for each, the rule that infers the metas it produces from the
//! metas it is given.

pub mod activation;
pub mod attention;
pub mod conv;
pub mod elementwise;
pub mod embedding;
pub mod layout;
pub mod linear;
pub mod mrope;
pub mod norm;
pub mod rearrange;
pub mod rope;
pub mod sizes;

use crate::arg::{Arg, ArgV};
use crate::dim::{dims_view, unified, Dim, DimV};
use crate::tensor::{metas_view, MetaV, TensorMeta};
use vstd::prelude::*;

verus! {

/// Why an operator refuses its inputs.
#[derive(Clone, Copy, Debug, PartialEq, Eq, Hash, Structural)]
pub enum OpError {
    /// No operator of that name is registered.
    UnknownOp,
    /// An argument is missing, unexpected or ill-typed.
    ArgError,
    /// Wrong number of inputs, wrong rank, or an extent that had to be
    /// concrete is not.
    ShapeError,
    /// Two extents that had to unify do not.
    ShapeMismatch,
    /// Element types that had to agree do not.
    DTypeMismatch,
}

/// The argument that an optional reference stands for.
pub open spec fn arg_value(args: Option<&Arg>) -> Option<ArgV> {
    match args {
        Some(a) => Some(a@),
        None => None,
    }
}

/// `got` is what `rule` prescribes: the same error, or metas of the same value.
pub open spec fn agrees(
    got: Result<Vec<TensorMeta>, OpError>,
    rule: Result<Seq<MetaV>, OpError>,
) -> bool {
    match got {
        Ok(metas) => rule == Ok::<Seq<MetaV>, OpError>(metas_view(metas@)),
        Err(e) => rule == Err::<Seq<MetaV>, OpError>(e),
    }
}

/// Shape and dtype inference of one operator.
pub trait Operator {
    /// The metas that the operator produces for `inputs` and `arg`, or the
    /// reason why it refuses them.
    spec fn rule(&self, inputs: Seq<MetaV>, arg: Option<ArgV>) -> Result<Seq<MetaV>, OpError>;

    /// Runs the rule.
    fn infer(&self, inputs: &[TensorMeta], args: Option<&Arg>) -> (r: Result<
        Vec<TensorMeta>,
        OpError,
    >)
        ensures
            agrees(r, self.rule(metas_view(inputs@), arg_value(args))),
    ;
}

/// The operators that a library can hold.
#[derive(Clone, Copy, Debug, PartialEq, Eq, Hash, Structural)]
pub enum Op {
    Add,
    Attention,
    Conv,
    Embedding,
    Gelu,
    LayerNorm,
    Linear,
    Matmul,
    Merge,
    Mrope,
    Mul,
    Rearrange,
    RmsNorm,
    Rope,
    Softmax,
    Split,
    Swiglu,
    Tile,
    Transpose,
}

/// The rule of the operator `op`: what it produces for `inputs` and `arg`,
/// or the reason why it refuses them.
#[verifier::opaque]
pub open spec fn rule_of(op: Op, inputs: Seq<MetaV>, arg: Option<ArgV>) -> Result<
    Seq<MetaV>,
    OpError,
> {
    match op {
        Op::Add => elementwise::Add.rule(inputs, arg),
        Op::Attention => attention::Attention.rule(inputs, arg),
        Op::Conv => conv::Conv.rule(inputs, arg),
        Op::Embedding => embedding::Embedding.rule(inputs, arg),
        Op::Gelu => activation::Gelu.rule(inputs, arg),
        Op::LayerNorm => norm::LayerNorm.rule(inputs, arg),
        Op::Linear => linear::Linear.rule(inputs, arg),
        Op::Matmul => linear::Matmul.rule(inputs, arg),
        Op::Mrope => mrope::Mrope.rule(inputs, arg),
        Op::Mul => elementwise::Mul.rule(inputs, arg),
        Op::Rearrange => rearrange::Rearrange.rule(inputs, arg),
        Op::RmsNorm => norm::RmsNorm.rule(inputs, arg),
        Op::Rope => rope::Rope.rule(inputs, arg),
        Op::Softmax => activation::Softmax.rule(inputs, arg),
        Op::Swiglu => activation::Swiglu.rule(inputs, arg),
        Op::Merge => layout::Merge.rule(inputs, arg),
        Op::Split => layout::Split.rule(inputs, arg),
        Op::Tile => layout::Tile.rule(inputs, arg),
        Op::Transpose => layout::Transpose.rule(inputs, arg),
    }
}

impl Operator for Op {
    open spec fn rule(&self, inputs: Seq<MetaV>, arg: Option<ArgV>) -> Result<
        Seq<MetaV>,
        OpError,
    > {
        rule_of(*self, inputs, arg)
    }

    fn infer(&self, inputs: &[TensorMeta], args: Option<&Arg>) -> (r: Result<
        Vec<TensorMeta>,
        OpError,
    >) {
        reveal(rule_of);
        match self {
            Op::Add => elementwise::Add.infer(inputs, args),
            Op::Attention => attention::Attention.infer(inputs, args),
            Op::Conv => conv::Conv.infer(inputs, args),
            Op::Embedding => embedding::Embedding.infer(inputs, args),
            Op::Gelu => activation::Gelu.infer(inputs, args),
            Op::LayerNorm => norm::LayerNorm.infer(inputs, args),
            Op::Linear => linear::Linear.infer(inputs, args),
            Op::Matmul => linear::Matmul.infer(inputs, args),
            Op::Mrope => mrope::Mrope.infer(inputs, args),
            Op::Mul => elementwise::Mul.infer(inputs, args),
            Op::Rearrange => rearrange::Rearrange.infer(inputs, args),
            Op::RmsNorm => norm::RmsNorm.infer(inputs, args),
            Op::Rope => rope::Rope.infer(inputs, args),
            Op::Softmax => activation::Softmax.infer(inputs, args),
            Op::Swiglu => activation::Swiglu.infer(inputs, args),
            Op::Merge => layout::Merge.infer(inputs, args),
            Op::Split => layout::Split.infer(inputs, args),
            Op::Tile => layout::Tile.infer(inputs, args),
            Op::Transpose => layout::Transpose.infer(inputs, args),
        }
    }
}

/// Unifies two extents for an operator.
pub fn unify_dims(a: &Dim, b: &Dim) -> (r: Result<Dim, OpError>)
    ensures
        match r {
            Ok(d) => unified(a@, b@) == Some(d@),
            Err(e) => unified(a@, b@) is None && e == OpError::ShapeMismatch,
        },
{
    match a.unify(b) {
        Some(d) => Ok(d),
        None => Err(OpError::ShapeMismatch),
    }
}

/// The one-element result list.
pub fn single(meta: TensorMeta) -> (r: Vec<TensorMeta>)
    ensures
        metas_view(r@) == seq![meta@],
{
    let mut out: Vec<TensorMeta> = Vec::new();
    out.push(meta);
    proof {
        assert(metas_view(out@) =~= seq![meta@]);
    }
    out
}

/// The extent as a number, if it is concrete.
pub open spec fn concrete(d: DimV) -> Option<int> {
    match d {
        DimV::Int(n) => Some(n),
        DimV::Sym(_) => None,
    }
}

/// The extent as a number; an extent that is only a name is refused.
pub fn dim_value(d: &Dim) -> (r: Result<usize, OpError>)
    ensures
        match r {
            Ok(n) => concrete(d@) == Some(n as int),
            Err(e) => concrete(d@) is None && e == OpError::ShapeError,
        },
{
    match d.value() {
        Some(n) => Ok(n),
        None => Err(OpError::ShapeError),
    }
}

/// `shape` with its last extent replaced by `d`.
pub fn with_last(shape: &[Dim], d: Dim) -> (r: Vec<Dim>)
    requires
        shape@.len() >= 1,
    ensures
        dims_view(r@) == dims_view(shape@).drop_last().push(d@),
{
    let mut out: Vec<Dim> = Vec::new();
    let mut i: usize = 0;
    while i + 1 < shape.len()
        invariant
            i + 1 <= shape.len(),
            out@.len() == i,
            forall|k: int| 0 <= k < i ==> (#[trigger] out@[k])@ == shape@[k]@,
        decreases shape.len() - i,
    {
        out.push(shape[i].duplicate());
        i += 1;
    }
    out.push(d);
    proof {
        assert(dims_view(out@) =~= dims_view(shape@).drop_last().push(d@));
    }
    out
}

/// Extent by extent unification of two shapes of the same rank.
pub open spec fn unified_shapes(a: Seq<DimV>, b: Seq<DimV>) -> Option<Seq<DimV>> {
    if forall|i: int| 0 <= i < a.len() ==> (#[trigger] unified(a[i], b[i])) is Some {
        Some(Seq::new(a.len(), |i: int| unified(a[i], b[i])->0))
    } else {
        None
    }
}

/// Unifies two shapes of the same rank, extent by extent.
pub fn unify_shapes(a: &[Dim], b: &[Dim]) -> (r: Result<Vec<Dim>, OpError>)
    requires
        a@.len() == b@.len(),
    ensures
        match r {
            Ok(v) => unified_shapes(dims_view(a@), dims_view(b@)) == Some(dims_view(v@)),
            Err(e) => unified_shapes(dims_view(a@), dims_view(b@)) is None && e
                == OpError::ShapeMismatch,
        },
{
    let ghost av = dims_view(a@);
    let ghost bv = dims_view(b@);
    let mut out: Vec<Dim> = Vec::new();
    let mut i: usize = 0;
    while i < a.len()
        invariant
            i <= a.len(),
            a@.len() == b@.len(),
            av == dims_view(a@),
            bv == dims_view(b@),
            out@.len() == i,
            forall|k: int| 0 <= k < i ==> (#[trigger] unified(av[k], bv[k])) == Some(out@[k]@),
        decreases a.len() - i,
    {
        match a[i].unify(&b[i]) {
            Some(d) => {
                out.push(d);
            },
            None => {
                assert(unified(av[i as int], bv[i as int]) is None);
                return Err(OpError::ShapeMismatch);
            },
        }
        i += 1;
    }
    proof {
        assert(unified_shapes(av, bv).unwrap() =~= dims_view(out@));
    }
    Ok(out)
}

} // verus!
