//! A linear projection with its weight and optional bias.

use crate::ctx::nn_ctx::{Context, ScopeV};
use crate::dim::{dims_view, Dim, DimV};
use crate::dtype::Dtype;
use crate::nn::embedding::{matrix, matrix_shape};
use crate::nn::{finished, NNError, NuralNetwork, Outcome};
use crate::tensor::{list1, list2, list3, tensors_view, MetaV, Tensor, TensorMeta, TensorV};
use vstd::prelude::*;

verus! {

/// Projects rows of width `cols` to rows of width `rows` by a weight
/// `[rows, cols]`, and adds a bias `[rows]` where there is one.
#[derive(Clone, Debug)]
pub struct Linear<T> {
    pub dt: Dtype,
    pub rows: usize,
    pub cols: usize,
    pub weight: T,
    pub bias: Option<T>,
}

/// The one-dimensional shape `[n]`.
pub open spec fn vector(n: usize) -> Seq<DimV> {
    seq![DimV::Int(n as int)]
}

/// The shape `[n]`.
pub fn vector_shape(n: usize) -> (r: Vec<Dim>)
    ensures
        dims_view(r@) == vector(n),
{
    let mut shape: Vec<Dim> = Vec::new();
    shape.push(Dim::Int(n));
    proof {
        assert(dims_view(shape@) =~= vector(n));
    }
    shape
}

impl<T> NuralNetwork<T> for Linear<T> {
    /// At least the tensor to project.
    open spec fn accepts(&self, inputs: Seq<MetaV>) -> bool {
        inputs.len() >= 1
    }

    open spec fn well_named(&self) -> bool {
        true
    }

    fn admits(&self, inputs: &Vec<TensorMeta>) -> (r: bool) {
        inputs.len() >= 1
    }

    /// Loads `weight`, and `bias` where there is one, and calls `linear`.
    open spec fn outcome(&self, scope: ScopeV<T>, inputs: Seq<TensorV>) -> Outcome<T> {
        let (scope, w) = scope.load(
            "weight"@,
            MetaV { dt: self.dt, shape: matrix(self.rows, self.cols) },
            self.weight,
        );
        match self.bias {
            Some(bias) => {
                let (scope, b) = scope.load(
                    "bias"@,
                    MetaV { dt: self.dt, shape: vector(self.rows) },
                    bias,
                );
                finished(scope.apply("linear"@, None, seq![inputs[0], w, b]))
            },
            None => finished(scope.apply("linear"@, None, seq![inputs[0], w])),
        }
    }

    fn launch<'g>(self, inputs: Vec<Tensor>, ctx: Context<'g, T>) -> (r: Result<
        (Context<'g, T>, Vec<Tensor>),
        NNError,
    >) {
        let mut ctx = ctx;
        proof {
            crate::ctx::name::lemma_names_plain();
        }
        let Linear { dt, rows, cols, weight, bias } = self;
        proof {
            reveal_strlit("weight");
            reveal_strlit("bias");
            assert("weight"@.len() != "bias"@.len());
            assert(tensors_view(inputs@)[0] == inputs@[0]@);
        }
        let x = inputs[0].duplicate();
        let w = ctx.load_external("weight", dt, matrix_shape(rows, cols), weight);
        let given = match bias {
            Some(bias) => {
                let b = ctx.load_external("bias", dt, vector_shape(rows), bias);
                list3(x, w, b)
            },
            None => list2(x, w),
        };
        let y = ctx.apply("linear", None, given)?;
        Ok((ctx, list1(y)))
    }
}

} // verus!
