//! Token embedding, with an optional positional table.

use crate::arg::{int_arr, sizes_view, Arg, ArgV};
use crate::ctx::nn_ctx::{Context, ScopeV};
use crate::dim::{dims_view, Dim, DimV};
use crate::dtype::Dtype;
use crate::nn::distribution::TPTensor;
use crate::nn::{fits, NNError, NuralNetwork, Outcome};
use crate::tensor::{tensors_view, MetaV, Tensor, TensorMeta, TensorV};
use vstd::prelude::*;

verus! {

/// A table of `row` rows.
#[derive(Clone, Debug)]
pub struct Table<T> {
    pub row: usize,
    pub weight: T,
}

/// Looks tokens up in a table of rows of width `d`, and adds the rows of a
/// positional table where there is one.
#[derive(Clone, Debug)]
pub struct Embedding<T> {
    pub dt: Dtype,
    pub d: usize,
    pub wte: Table<T>,
    pub wpe: Option<Table<T>>,
    pub img_info: Option<[usize; 3]>,
}

/// The argument that carries the image metadata `info`.
pub open spec fn image_arg(info: Option<[usize; 3]>) -> Option<ArgV> {
    match info {
        Some(a) => Some(int_arr(seq![a@[0] as int, a@[1] as int, a@[2] as int])),
        None => None,
    }
}

/// The two-dimensional shape `[rows, cols]`.
pub open spec fn matrix(rows: usize, cols: usize) -> Seq<DimV> {
    seq![DimV::Int(rows as int), DimV::Int(cols as int)]
}

/// The shape `[rows, cols]`.
pub fn matrix_shape(rows: usize, cols: usize) -> (r: Vec<Dim>)
    ensures
        dims_view(r@) == matrix(rows, cols),
{
    let mut shape: Vec<Dim> = Vec::new();
    shape.push(Dim::Int(rows));
    shape.push(Dim::Int(cols));
    proof {
        assert(dims_view(shape@) =~= matrix(rows, cols));
    }
    shape
}

impl<T> Embedding<T> {
    /// The same embedding over weights that tensor parallelism leaves whole:
    /// an embedding is not sharded.
    pub fn tensor_parallel(self) -> (r: Embedding<TPTensor<T>>)
        ensures
            r == self.spec_tensor_parallel(),
    {
        let Embedding { dt, d, wte, wpe, img_info } = self;
        Embedding {
            dt,
            d,
            wte: Table { row: wte.row, weight: TPTensor::from(wte.weight) },
            wpe: match wpe {
                Some(Table { row, weight }) => Some(Table { row, weight: TPTensor::from(weight) }),
                None => None,
            },
            img_info,
        }
    }
}

impl<T> NuralNetwork<T> for Embedding<T> {
    /// The tokens, and the positions where there is a positional table;
    /// image metadata that fits the integers of an argument.
    open spec fn accepts(&self, inputs: Seq<MetaV>) -> bool {
        &&& inputs.len() >= (if self.wpe is Some {
            2nat
        } else {
            1nat
        })
        &&& self.img_info matches Some(a) ==> a@[0] <= i64::MAX && a@[1] <= i64::MAX && a@[2]
            <= i64::MAX
    }

    open spec fn well_named(&self) -> bool {
        true
    }

    fn admits(&self, inputs: &Vec<TensorMeta>) -> (r: bool) {
        let wanted: usize = if self.wpe.is_some() {
            2
        } else {
            1
        };
        let image_fits = match &self.img_info {
            Some(a) => fits(a[0]) && fits(a[1]) && fits(a[2]),
            None => true,
        };
        inputs.len() >= wanted && image_fits
    }

    /// Loads `wte`, and `wpe` where there is one, then calls `embedding`
    /// on the table and the tokens, followed by the positional table and
    /// the positions, with the image metadata as argument.
    open spec fn outcome(&self, scope: ScopeV<T>, inputs: Seq<TensorV>) -> Outcome<T> {
        let (scope, wte) = scope.load(
            "wte"@,
            MetaV { dt: self.dt, shape: matrix(self.wte.row, self.d) },
            self.wte.weight,
        );
        let (scope, called) = match self.wpe {
            Some(table) => {
                let (scope, wpe) = scope.load(
                    "wpe"@,
                    MetaV { dt: self.dt, shape: matrix(table.row, self.d) },
                    table.weight,
                );
                scope.call(
                    Seq::empty(),
                    "embedding"@,
                    image_arg(self.img_info),
                    seq![wte, inputs[0], wpe, inputs[1]],
                )
            },
            None => scope.call(
                Seq::empty(),
                "embedding"@,
                image_arg(self.img_info),
                seq![wte, inputs[0]],
            ),
        };
        match called {
            Ok(outputs) => Ok((scope, outputs)),
            Err(e) => Err(e),
        }
    }

    fn launch<'g>(self, inputs: Vec<Tensor>, ctx: Context<'g, T>) -> (r: Result<
        (Context<'g, T>, Vec<Tensor>),
        NNError,
    >) {
        let mut ctx = ctx;
        proof {
            crate::ctx::name::lemma_names_plain();
        }
        let Embedding { dt, d, wte, wpe, img_info } = self;
        proof {
            reveal_strlit("");
            reveal_strlit("wte");
            reveal_strlit("wpe");
            assert(""@ =~= Seq::<char>::empty());
            assert("wte"@ != "wpe"@) by {
                assert("wte"@[1] == 't');
                assert("wpe"@[1] == 'p');
            }
        }
        let Table { row, weight } = wte;
        let wte = ctx.load_external("wte", dt, matrix_shape(row, d), weight);
        let tokens = inputs[0].duplicate();
        let arg = match img_info {
            Some(a) => {
                let mut vals: Vec<usize> = Vec::new();
                vals.push(a[0]);
                vals.push(a[1]);
                vals.push(a[2]);
                proof {
                    assert(sizes_view(vals@) =~= seq![a@[0] as int, a@[1] as int, a@[2] as int]);
                }
                Some(Arg::ints(vals.as_slice()))
            },
            None => None,
        };
        let mut given: Vec<Tensor> = Vec::new();
        given.push(wte);
        given.push(tokens);
        match wpe {
            Some(Table { row, weight }) => {
                let wpe = ctx.load_external("wpe", dt, matrix_shape(row, d), weight);
                given.push(wpe);
                given.push(inputs[1].duplicate());
                proof {
                    assert(tensors_view(given@) =~= seq![given@[0]@, inputs@[0]@, wpe@, inputs@[1]@]);
                    assert(tensors_view(inputs@)[0] == inputs@[0]@);
                    assert(tensors_view(inputs@)[1] == inputs@[1]@);
                }
            },
            None => {
                proof {
                    assert(tensors_view(given@) =~= seq![given@[0]@, inputs@[0]@]);
                    assert(tensors_view(inputs@)[0] == inputs@[0]@);
                }
            },
        }
        let outputs = ctx.call("", "embedding", arg, given)?;
        Ok((ctx, outputs))
    }
}

} // verus!
