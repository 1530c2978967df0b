//! Networks: values that emit operator calls into a context.

pub mod compose;
pub mod conv;
pub mod distribution;
pub mod embedding;
pub mod linear;
pub mod mlp;
pub mod normalization;
pub mod parallel;
pub mod patch_embd;
pub mod qw2vl;
pub mod self_attn;
pub mod shards;
pub mod transformer_blk;

use crate::ctx::nn_ctx::{Context, ScopeV};
use crate::op::OpError;
use crate::tensor::{metas_of, metas_view, tensors_view, MetaV, Tensor, TensorMeta, TensorV};
use vstd::prelude::*;

verus! {

/// A failed call, with the fully qualified name of the node that failed.
#[derive(Clone, Debug, PartialEq, Eq)]
pub struct NNError {
    pub name: String,
    pub err: OpError,
}

/// Mathematical value of an [`NNError`].
pub struct NNErrorV {
    pub name: Seq<char>,
    pub err: OpError,
}

impl View for NNError {
    type V = NNErrorV;

    open spec fn view(&self) -> NNErrorV {
        NNErrorV { name: self.name@, err: self.err }
    }
}

/// A weight and, where there is one, the bias that goes with it.
#[derive(Clone, Debug)]
pub struct WeightBiasData<T> {
    pub weight: T,
    pub bias: Option<T>,
}

/// A network description together with the parameters of one run and with
/// its weights: what can be launched.
#[derive(Clone, Debug)]
pub struct Bound<N, A, D> {
    pub nn: N,
    pub args: A,
    pub data: D,
}

/// The error of a network that cannot work on what it is launched on: a
/// `ShapeError` under the path of its scope.
pub open spec fn unfit<T>(scope: ScopeV<T>) -> NNErrorV {
    NNErrorV { name: scope.path, err: OpError::ShapeError }
}

/// The error of a network that cannot work on what it is launched on.
pub fn refuse<'g, T>(ctx: &Context<'g, T>) -> (e: NNError)
    ensures
        e@ == unfit(ctx@),
{
    NNError { name: ctx.path().to_owned(), err: OpError::ShapeError }
}

/// Whether a tensor of meta `meta` has rank `rank`, or any rank of one at
/// least where `rank` is zero, and a known last extent.
pub open spec fn rows_of_known_width(meta: MetaV, rank: int) -> bool {
    &&& meta.shape.len() >= 1
    &&& rank != 0 ==> meta.shape.len() == rank
    &&& meta.shape.last() is Int
}

/// Whether `x` has rank `rank`, or any rank of one at least where `rank` is
/// zero, and a known last extent.
pub fn has_known_width(x: &Tensor, rank: usize) -> (r: bool)
    ensures
        r == rows_of_known_width(x@.meta, rank as int),
{
    let shape = x.shape();
    if shape.len() < 1 || (rank != 0 && shape.len() != rank) {
        return false;
    }
    proof {
        assert(x@.meta.shape.last() == crate::dim::dims_view(shape@)[shape@.len() - 1]);
    }
    shape[shape.len() - 1].value().is_some()
}

/// Whether twice `n` is an extent that the machine can hold and fits the
/// integers of an argument.
pub fn doubles(n: usize) -> (r: bool)
    ensures
        r == (2 * n <= i64::MAX && 2 * n <= usize::MAX),
{
    match n.checked_mul(2) {
        Some(twice) => (twice as u128) <= (i64::MAX as u128),
        None => false,
    }
}

/// Whether `n` fits the integers of an argument.
pub fn fits(n: usize) -> (r: bool)
    ensures
        r == (n <= i64::MAX),
{
    (n as u128) <= (i64::MAX as u128)
}

/// What a launch that returns one tensor leaves.
pub open spec fn finished<T>(step: crate::ctx::nn_ctx::Step<T>) -> Outcome<T> {
    match step.1 {
        Ok(y) => Ok((step.0, seq![y])),
        Err(e) => Err(e),
    }
}

/// What a launch leaves: the scope after it and the handles it returns, or
/// the error that stopped it.
pub type Outcome<T> = Result<(ScopeV<T>, Seq<TensorV>), NNErrorV>;

/// Mathematical value of what `launch` returned.
pub open spec fn launched<'g, T>(r: Result<(Context<'g, T>, Vec<Tensor>), NNError>) -> Outcome<T> {
    match r {
        Ok((ctx, outputs)) => Ok((ctx@, tensors_view(outputs@))),
        Err(e) => Err(e@),
    }
}

/// A sub-network: consumes its inputs and emits its operator calls through
/// the context it is given.
pub trait NuralNetwork<T>: Sized {
    /// What the network demands of the metas it is launched on.
    spec fn accepts(&self, inputs: Seq<MetaV>) -> bool;

    /// Whether the network accepts inputs of the metas `inputs`.
    fn admits(&self, inputs: &Vec<TensorMeta>) -> (r: bool)
        ensures
            r == self.accepts(metas_view(inputs@)),
    ;

    /// Whether every name that the network gives to a call or to a
    /// sub-scope is plain.
    spec fn well_named(&self) -> bool;

    /// What launching the network in `scope` on `inputs` leaves.
    spec fn outcome(&self, scope: ScopeV<T>, inputs: Seq<TensorV>) -> Outcome<T>;

    /// Launches the network in the fresh scope `ctx`.
    fn launch<'g>(self, inputs: Vec<Tensor>, ctx: Context<'g, T>) -> (r: Result<
        (Context<'g, T>, Vec<Tensor>),
        NNError,
    >)
        requires
            ctx@.wf(),
            ctx@.fresh(),
            ctx@.graph.owns_all(tensors_view(inputs@)),
            self.accepts(metas_of(tensors_view(inputs@))),
        ensures
            launched(r) == self.outcome(ctx@, tensors_view(inputs@)),
            r matches Ok((after, outputs)) ==> after@.continues(ctx@) && after@.graph.owns_all(
                tensors_view(outputs@),
            ),
            forall|since: nat|
                self.well_named() && #[trigger] ctx@.tidy(since) ==> (r matches Ok((after, _))
                    ==> after@.tidy(since)),
    ;
}

} // verus!
