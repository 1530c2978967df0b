//! Normalisation layers.

use crate::arg::{Arg, ArgV};
use crate::ctx::nn_ctx::{Context, ScopeV};
use crate::dtype::Dtype;
use crate::nn::linear::{vector, vector_shape};
use crate::nn::{
    finished, has_known_width, refuse, rows_of_known_width, unfit, Bound, NNError, NuralNetwork,
    Outcome, WeightBiasData,
};
use crate::tensor::{extent, list1, list2, list3, tensors_view, MetaV, Tensor, TensorMeta, TensorV};
use vstd::prelude::*;

verus! {

/// Which normalisation is applied.
#[derive(Clone, Copy, Debug, PartialEq, Eq, Structural)]
pub enum Type {
    /// Root mean square normalisation with the given epsilon, a 64-bit
    /// IEEE-754 number kept by its bit pattern.
    RmsNorm { epsilon: u64 },
    /// Layer normalisation, with scale and bias.
    LayerNorm,
}

/// A normalisation along the last axis, with weights of element type `dt_w`.
#[derive(Clone, Copy, Debug, PartialEq, Eq, Structural)]
pub struct Normalization {
    pub ty: Type,
    pub dt_w: Dtype,
}

/// The bit pattern of the epsilon of a layer normalisation, `1e-5`.
pub const LAYER_NORM_EPSILON: u64 = 0x3EE4_F8B5_88E3_68F1;

impl Normalization {
    /// Name of the operator that is called.
    pub open spec fn op_name(self) -> Seq<char> {
        match self.ty {
            Type::RmsNorm { .. } => "rmsnorm"@,
            Type::LayerNorm => "layernorm"@,
        }
    }

    /// The epsilon that is handed to the operator.
    pub open spec fn epsilon(self) -> u64 {
        match self.ty {
            Type::RmsNorm { epsilon } => epsilon,
            Type::LayerNorm => LAYER_NORM_EPSILON,
        }
    }
}

/// A layer normalisation has its bias.
pub open spec fn norm_ready<T>(nn: Normalization, data: WeightBiasData<T>) -> bool {
    nn.ty is LayerNorm ==> data.bias is Some
}

impl<T> NuralNetwork<T> for Bound<Normalization, (), WeightBiasData<T>> {
    /// The tensor to normalise; a bias for a layer normalisation.
    open spec fn accepts(&self, inputs: Seq<MetaV>) -> bool {
        inputs.len() >= 1 && norm_ready(self.nn, self.data)
    }

    open spec fn well_named(&self) -> bool {
        true
    }

    fn admits(&self, inputs: &Vec<TensorMeta>) -> (r: bool) {
        let ready = match self.nn.ty {
            Type::LayerNorm => self.data.bias.is_some(),
            Type::RmsNorm { .. } => true,
        };
        inputs.len() >= 1 && ready
    }

    /// Refuses an input without axes or whose last extent is not known;
    /// else loads `weight`, and `bias` for a layer normalisation, of the
    /// width of the input's last axis, and calls the operator with the
    /// epsilon.
    open spec fn outcome(&self, scope: ScopeV<T>, inputs: Seq<TensorV>) -> Outcome<T> {
        let x = inputs[0];
        let d = extent(x.meta.shape.last()) as usize;
        let meta = MetaV { dt: self.nn.dt_w, shape: vector(d) };
        let arg = Some(ArgV::Float(self.nn.epsilon()));
        if !rows_of_known_width(x.meta, 0) {
            Err(unfit(scope))
        } else {
            let (scope, w) = scope.load("weight"@, meta, self.data.weight);
            match self.nn.ty {
                Type::RmsNorm { .. } => finished(scope.apply("rmsnorm"@, arg, seq![x, w])),
                Type::LayerNorm => {
                    let (scope, b) = scope.load("bias"@, meta, self.data.bias->0);
                    finished(scope.apply("layernorm"@, arg, seq![x, w, b]))
                },
            }
        }
    }

    fn launch<'g>(self, inputs: Vec<Tensor>, ctx: Context<'g, T>) -> (r: Result<
        (Context<'g, T>, Vec<Tensor>),
        NNError,
    >) {
        let mut ctx = ctx;
        proof {
            crate::ctx::name::lemma_names_plain();
        }
        let Bound { nn, args: _, data } = self;
        let WeightBiasData { weight, bias } = data;
        proof {
            reveal_strlit("weight");
            reveal_strlit("bias");
            assert("weight"@.len() != "bias"@.len());
            assert(tensors_view(inputs@)[0] == inputs@[0]@);
        }
        let x = inputs[0].duplicate();
        if !has_known_width(&x, 0) {
            return Err(refuse(&ctx));
        }
        let d = x.last_extent();
        let w = ctx.load_external("weight", nn.dt_w, vector_shape(d), weight);
        let y = match nn.ty {
            Type::RmsNorm { epsilon } => ctx.apply(
                "rmsnorm",
                Some(Arg::Float(epsilon)),
                list2(x, w),
            )?,
            Type::LayerNorm => {
                let b = ctx.load_external("bias", nn.dt_w, vector_shape(d), bias.unwrap());
                ctx.apply("layernorm", Some(Arg::Float(LAYER_NORM_EPSILON)), list3(x, w, b))?
            },
        };
        Ok((ctx, list1(y)))
    }
}

} // verus!
