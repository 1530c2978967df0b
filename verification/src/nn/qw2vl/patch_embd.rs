//! Patch embedding of the vision tower: two convolution layers over the
//! patches, added, then folded.

use crate::ctx::nn_ctx::{lemma_piped_stops, piped, Context, ScopeV, Stage, Step};
use crate::dim::DimV;
use crate::dtype::Dtype;
use crate::nn::conv::{self, ConvLayer};
use crate::nn::patch_embd::{fold_stages, fold_steps, lemma_patch_names};
use crate::nn::{
    finished, fits, refuse, unfit, Bound, NNError, NuralNetwork, Outcome, WeightBiasData,
};
use crate::tensor::{extent, list1, list2, tensors_view, MetaV, Tensor, TensorMeta, TensorV};
use vstd::prelude::*;

verus! {

/// A patch embedding with weights of element type `dt_w`; `bias` says
/// whether its convolutions have a bias of their own.
#[derive(Clone, Copy, Debug, PartialEq, Eq, Structural)]
pub struct PatchEmbd {
    pub dt_w: Dtype,
    pub bias: bool,
}

/// Parameters of one run: embeddings of width `m` for patches of `d_patch`
/// by `d_patch`.
#[derive(Clone, Copy, Debug, PartialEq, Eq, Structural)]
pub struct Args {
    pub m: usize,
    pub d_patch: usize,
}

/// Weights of a patch embedding: those of its two convolutions.
#[derive(Clone, Debug)]
pub struct Data<T> {
    pub patch_embd: WeightBiasData<T>,
    pub patch_embd1: WeightBiasData<T>,
}

/// The parts of a patch embedding.
#[derive(Clone, Copy, Debug, PartialEq, Eq, Structural)]
pub enum Sub {
    Conv,
    Conv1,
}

impl Sub {
    /// Name of the sub-scope of the part.
    pub open spec fn spec_name(self) -> Seq<char> {
        match self {
            Sub::Conv => "conv"@,
            Sub::Conv1 => "conv1"@,
        }
    }

    /// Name of the sub-scope of the part.
    pub fn name(&self) -> (r: &'static str)
        ensures
            r@ == self.spec_name(),
    {
        match self {
            Sub::Conv => "conv",
            Sub::Conv1 => "conv1",
        }
    }
}

/// One image: rank four, a leading extent of one, known height and width.
pub open spec fn one_image(meta: MetaV) -> bool {
    &&& meta.shape.len() == 4
    &&& meta.shape[0] == DimV::Int(1)
    &&& meta.shape[2] is Int
    &&& meta.shape[3] is Int
}

/// Whether `x` is one image.
pub fn is_one_image(x: &Tensor) -> (r: bool)
    ensures
        r == one_image(x@.meta),
{
    let shape = x.shape();
    if shape.len() != 4 {
        return false;
    }
    let one = match shape[0].value() {
        Some(n) => n == 1,
        None => false,
    };
    one && shape[2].value().is_some() && shape[3].value().is_some()
}

impl<T> NuralNetwork<T> for Bound<PatchEmbd, Args, Data<T>> {
    /// The image, followed by the bias where the convolutions have none of
    /// their own; patches that are not empty; a width and a patch size that
    /// fit the integers of an argument.
    open spec fn accepts(&self, inputs: Seq<MetaV>) -> bool {
        &&& inputs.len() >= (if self.nn.bias {
            1nat
        } else {
            2nat
        })
        &&& self.nn.bias ==> self.data.patch_embd.bias is Some && self.data.patch_embd1.bias
            is Some
        &&& 0 < self.args.d_patch <= i64::MAX
        &&& self.args.m <= i64::MAX
    }

    open spec fn well_named(&self) -> bool {
        true
    }

    fn admits(&self, inputs: &Vec<TensorMeta>) -> (r: bool) {
        let wanted: usize = if self.nn.bias {
            1
        } else {
            2
        };
        let biased = !self.nn.bias || (self.data.patch_embd.bias.is_some()
            && self.data.patch_embd1.bias.is_some());
        inputs.len() >= wanted && biased && 0 < self.args.d_patch && fits(self.args.d_patch)
            && fits(self.args.m)
    }

    /// Refuses what is not one image; else descends into the convolutions
    /// `conv` and `conv1`, adds what they give and folds the sum.
    open spec fn outcome(&self, scope: ScopeV<T>, inputs: Seq<TensorV>) -> Outcome<T> {
        let raw = inputs[0];
        let layer = ConvLayer { dt_w: self.nn.dt_w, bias: self.nn.bias };
        let args = conv::Args { d: self.args.m, d_patch: self.args.d_patch };
        let given = if self.nn.bias {
            seq![raw]
        } else {
            seq![raw, inputs[1]]
        };
        if !one_image(raw.meta) {
            Err(unfit(scope))
        } else {
            let (scope, first) = scope.descend(
                "conv"@,
                Bound { nn: layer, args, data: self.data.patch_embd },
                given,
            );
            match first {
                Err(e) => Err(e),
                Ok(y0) => {
                    let (scope, second) = scope.descend(
                        "conv1"@,
                        Bound { nn: layer, args, data: self.data.patch_embd1 },
                        given,
                    );
                    match second {
                        Err(e) => Err(e),
                        Ok(y1) => finished(
                            piped(
                                scope.apply("add"@, None, seq![y0, y1]),
                                fold_stages(
                                    1,
                                    self.args.m as int,
                                    extent(raw.meta.shape[2]) / self.args.d_patch as int,
                                    extent(raw.meta.shape[3]) / self.args.d_patch as int,
                                ),
                            ),
                        ),
                    }
                },
            }
        }
    }

    fn launch<'g>(self, inputs: Vec<Tensor>, ctx: Context<'g, T>) -> (r: Result<
        (Context<'g, T>, Vec<Tensor>),
        NNError,
    >) {
        let mut ctx = ctx;
        proof {
            crate::ctx::name::lemma_names_plain();
        }
        let Bound { nn, args, data } = self;
        let Data { patch_embd, patch_embd1 } = data;
        proof {
            lemma_patch_names();
            reveal_strlit("conv");
            reveal_strlit("conv1");
            assert("conv"@.len() != "conv1"@.len());
            assert(tensors_view(inputs@)[0] == inputs@[0]@);
            if !nn.bias {
                assert(tensors_view(inputs@)[1] == inputs@[1]@);
            }
        }
        let raw = &inputs[0];
        if !is_one_image(raw) {
            return Err(refuse(&ctx));
        }
        let hp = raw.extent_at(2) / args.d_patch;
        let wp = raw.extent_at(3) / args.d_patch;
        let layer = ConvLayer { dt_w: nn.dt_w, bias: nn.bias };
        let conv_args = conv::Args { d: args.m, d_patch: args.d_patch };
        let (given0, given1) = if nn.bias {
            (list1(raw.duplicate()), list1(raw.duplicate()))
        } else {
            (
                list2(raw.duplicate(), inputs[1].duplicate()),
                list2(raw.duplicate(), inputs[1].duplicate()),
            )
        };
        let y0 = ctx.descend(
            Sub::Conv.name(),
            Bound { nn: layer, args: conv_args, data: patch_embd },
            given0,
        )?;
        let y1 = ctx.descend(
            Sub::Conv1.name(),
            Bound { nn: layer, args: conv_args, data: patch_embd1 },
            given1,
        )?;
        let ghost stages = fold_stages(1, args.m as int, hp as int, wp as int);
        let sum = match ctx.apply("add", None, list2(y0, y1)) {
            Ok(sum) => sum,
            Err(e) => {
                proof {
                    let stopped: Step<T> = (ctx@, Err(e@));
                    assert(stages.subrange(0, 0) =~= Seq::<Stage>::empty());
                    lemma_piped_stops(stopped, stages, 0);
                }
                return Err(e);
            },
        };
        let y = ctx.pipeline(sum, fold_steps(1, args.m, hp, wp))?;
        Ok((ctx, list1(y)))
    }
}

} // verus!
