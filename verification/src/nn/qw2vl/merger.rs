//! The merger that follows the vision tower: a normalisation and a
//! feed-forward block.

use crate::ctx::nn_ctx::{Context, ScopeV};
use crate::nn::mlp::{self, mlp_ready, Mlp};
use crate::nn::normalization::{norm_ready, Normalization, Type};
use crate::nn::{doubles, finished, Bound, NNError, NuralNetwork, Outcome, WeightBiasData};
use crate::tensor::{list1, tensors_view, MetaV, Tensor, TensorMeta, TensorV};
use vstd::prelude::*;

verus! {

/// A merger: its normalisation and its feed-forward block.
#[derive(Clone, Copy, Debug, PartialEq, Eq, Structural)]
pub struct Merger {
    pub post_norm: Normalization,
    pub mlp: Mlp,
}

/// Parameters of one run: a merger has none.
#[derive(Clone, Copy, Debug, PartialEq, Eq, Structural)]
pub struct Args {}

/// Weights of a merger.
#[derive(Clone, Debug)]
pub struct Data<T> {
    pub post_norm: WeightBiasData<T>,
    pub mlp: mlp::Data<T>,
}

/// The parts of a merger.
#[derive(Clone, Copy, Debug, PartialEq, Eq, Structural)]
pub enum Sub {
    PostNorm,
    Mlp,
}

impl Sub {
    /// Name of the sub-scope of the part.
    pub open spec fn spec_name(self) -> Seq<char> {
        match self {
            Sub::PostNorm => "post-norm"@,
            Sub::Mlp => "mlp"@,
        }
    }

    /// Name of the sub-scope of the part.
    pub fn name(&self) -> (r: &'static str)
        ensures
            r@ == self.spec_name(),
    {
        match self {
            Sub::PostNorm => "post-norm",
            Sub::Mlp => "mlp",
        }
    }
}

impl<T> NuralNetwork<T> for Bound<Merger, Args, Data<T>> {
    /// The tensor to merge; parts that are ready.
    open spec fn accepts(&self, inputs: Seq<MetaV>) -> bool {
        &&& inputs.len() >= 1
        &&& norm_ready(self.nn.post_norm, self.data.post_norm)
        &&& mlp_ready(self.nn.mlp)
    }

    open spec fn well_named(&self) -> bool {
        true
    }

    fn admits(&self, inputs: &Vec<TensorMeta>) -> (r: bool) {
        let biased = match self.nn.post_norm.ty {
            Type::LayerNorm => self.data.post_norm.bias.is_some(),
            Type::RmsNorm { .. } => true,
        };
        inputs.len() >= 1 && biased && doubles(self.nn.mlp.di)
    }

    /// Descends into `post-norm`, then into `mlp` without a residual.
    open spec fn outcome(&self, scope: ScopeV<T>, inputs: Seq<TensorV>) -> Outcome<T> {
        let norm = Bound { nn: self.nn.post_norm, args: (), data: self.data.post_norm };
        let ffn = Bound { nn: self.nn.mlp, args: mlp::Args { residual: false }, data: self.data.mlp };
        let (scope, x1) = scope.descend("post-norm"@, norm, seq![inputs[0]]);
        match x1 {
            Err(e) => Err(e),
            Ok(x1) => finished(scope.descend("mlp"@, ffn, seq![x1])),
        }
    }

    fn launch<'g>(self, inputs: Vec<Tensor>, ctx: Context<'g, T>) -> (r: Result<
        (Context<'g, T>, Vec<Tensor>),
        NNError,
    >) {
        let mut ctx = ctx;
        proof {
            crate::ctx::name::lemma_names_plain();
        }
        let Bound { nn, args: _, data } = self;
        let Data { post_norm, mlp } = data;
        proof {
            reveal_strlit("post-norm");
            reveal_strlit("mlp");
            assert("post-norm"@.len() != "mlp"@.len());
            assert(tensors_view(inputs@)[0] == inputs@[0]@);
        }
        let norm = Bound { nn: nn.post_norm, args: (), data: post_norm };
        let ffn = Bound { nn: nn.mlp, args: mlp::Args { residual: false }, data: mlp };
        let x1 = ctx.descend(Sub::PostNorm.name(), norm, list1(inputs[0].duplicate()))?;
        let y = ctx.descend(Sub::Mlp.name(), ffn, list1(x1))?;
        Ok((ctx, list1(y)))
    }
}

} // verus!
