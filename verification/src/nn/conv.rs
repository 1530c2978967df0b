//! A convolution layer over the patches of an image.

use crate::arg::{int_arr, Arg, ArgV};
use crate::ctx::nn_ctx::{count, yielded, Context, ScopeV};
use crate::dim::DimV;
use crate::dtype::Dtype;
use crate::nn::linear::{vector, vector_shape};
use crate::nn::patch_embd::{pair, quad};
use crate::nn::{finished, fits, Bound, NNError, NuralNetwork, Outcome, WeightBiasData};
use crate::tensor::{
    dims_of, int_shape, list1, list3, tensors_view, MetaV, Tensor, TensorMeta, TensorV,
};
use vstd::prelude::*;

verus! {

/// A convolution with a square kernel over three channels, with weights of
/// element type `dt_w`; `bias` says whether the layer has a bias of its own.
#[derive(Clone, Copy, Debug, PartialEq, Eq, Structural)]
pub struct ConvLayer {
    pub dt_w: Dtype,
    pub bias: bool,
}

/// Parameters of one run: `d` output channels, patches of `d_patch` by
/// `d_patch`.
#[derive(Clone, Copy, Debug, PartialEq, Eq, Structural)]
pub struct Args {
    pub d: usize,
    pub d_patch: usize,
}

/// The argument of a convolution that moves an undilated, unpadded kernel
/// by `d_patch` along both axes.
pub open spec fn patch_arg(d_patch: int) -> ArgV {
    ArgV::Dict(
        seq![
            ("strides"@, int_arr(seq![d_patch, d_patch])),
            ("dilations"@, int_arr(seq![1, 1])),
            ("pads"@, int_arr(seq![0, 0, 0, 0])),
        ],
    )
}

impl<'g, T> Context<'g, T> {
    /// Calls `conv` on `x` with the kernel `w` and the bias `b`, patch by
    /// patch: strides of `d_patch`, no dilation, no padding.
    pub fn conv(&mut self, x: Tensor, w: Tensor, b: Tensor, d_patch: usize) -> (r: Result<
        Tensor,
        NNError,
    >)
        requires
            old(self)@.wf(),
            count(old(self)@.ops, "conv"@) < usize::MAX,
            old(self)@.graph.owns(x@),
            old(self)@.graph.owns(w@),
            old(self)@.graph.owns(b@),
            d_patch <= i64::MAX,
        ensures
            (final(self)@, yielded(r)) == old(self)@.apply(
                "conv"@,
                Some(patch_arg(d_patch as int)),
                seq![x@, w@, b@],
            ),
            final(self)@.continues(old(self)@),
            final(self)@.called(old(self)@, "conv"@),
            r matches Ok(y) ==> final(self)@.graph.owns(y@),
            forall|since: nat|
                #[trigger] old(self)@.tidy(since) ==> final(self)@.tidy(since),
    {
        proof {
            crate::ctx::name::lemma_names_plain();
        }
        let strides = Arg::ints(pair(d_patch, d_patch).as_slice());
        let dilations = Arg::ints(pair(1, 1).as_slice());
        let pads = Arg::ints(quad(0, 0, 0, 0).as_slice());
        let arg = Arg::dict3("strides", strides, "dilations", dilations, "pads", pads);
        self.apply("conv", Some(arg), list3(x, w, b))
    }
}

/// A layer with a bias of its own has it, and the patch size fits the
/// integers of an argument.
pub open spec fn conv_ready<T>(nn: ConvLayer, args: Args, data: WeightBiasData<T>) -> bool {
    &&& nn.bias ==> data.bias is Some
    &&& args.d_patch <= i64::MAX
}

/// The shape of the kernel of `d` output channels over three channels of
/// patches of `d_patch` by `d_patch`.
pub open spec fn kernel_shape(d: usize, d_patch: usize) -> Seq<DimV> {
    int_shape(seq![d, 3usize, d_patch, d_patch])
}

impl<T> NuralNetwork<T> for Bound<ConvLayer, Args, WeightBiasData<T>> {
    /// The image, followed by the bias where the layer has none of its own.
    open spec fn accepts(&self, inputs: Seq<MetaV>) -> bool {
        &&& inputs.len() >= (if self.nn.bias {
            1nat
        } else {
            2nat
        })
        &&& conv_ready(self.nn, self.args, self.data)
    }

    open spec fn well_named(&self) -> bool {
        true
    }

    fn admits(&self, inputs: &Vec<TensorMeta>) -> (r: bool) {
        let wanted: usize = if self.nn.bias {
            1
        } else {
            2
        };
        inputs.len() >= wanted && (!self.nn.bias || self.data.bias.is_some()) && fits(
            self.args.d_patch,
        )
    }

    /// Loads `weight`, and `bias` where the layer has one of its own, and
    /// calls `conv` patch by patch.
    open spec fn outcome(&self, scope: ScopeV<T>, inputs: Seq<TensorV>) -> Outcome<T> {
        let (scope, w) = scope.load(
            "weight"@,
            MetaV { dt: self.nn.dt_w, shape: kernel_shape(self.args.d, self.args.d_patch) },
            self.data.weight,
        );
        let arg = Some(patch_arg(self.args.d_patch as int));
        if self.nn.bias {
            let (scope, b) = scope.load(
                "bias"@,
                MetaV { dt: self.nn.dt_w, shape: vector(self.args.d) },
                self.data.bias->0,
            );
            finished(scope.apply("conv"@, arg, seq![inputs[0], w, b]))
        } else {
            finished(scope.apply("conv"@, arg, seq![inputs[0], w, inputs[1]]))
        }
    }

    fn launch<'g>(self, inputs: Vec<Tensor>, ctx: Context<'g, T>) -> (r: Result<
        (Context<'g, T>, Vec<Tensor>),
        NNError,
    >) {
        let mut ctx = ctx;
        proof {
            crate::ctx::name::lemma_names_plain();
        }
        let Bound { nn, args, data } = self;
        let WeightBiasData { weight, bias } = data;
        let Args { d, d_patch } = args;
        proof {
            reveal_strlit("weight");
            reveal_strlit("bias");
            assert("weight"@.len() != "bias"@.len());
            assert(tensors_view(inputs@)[0] == inputs@[0]@);
            if !nn.bias {
                assert(tensors_view(inputs@)[1] == inputs@[1]@);
            }
        }
        let x = inputs[0].duplicate();
        let w = ctx.load_external(
            "weight",
            nn.dt_w,
            dims_of(quad(d, 3, d_patch, d_patch).as_slice()),
            weight,
        );
        let b = match (nn.bias, bias) {
            (true, Some(bias)) => ctx.load_external("bias", nn.dt_w, vector_shape(d), bias),
            _ => inputs[1].duplicate(),
        };
        let y = ctx.conv(x, w, b, d_patch)?;
        Ok((ctx, list1(y)))
    }
}

} // verus!
