//! The feed-forward block: up projection, activation, down projection.

use crate::ctx::nn_ctx::{Context, ScopeV};
use crate::dtype::Dtype;
use crate::nn::linear::Linear;
use crate::nn::patch_embd::pair;
use crate::nn::{
    doubles, finished, has_known_width, refuse, rows_of_known_width, unfit, Bound, NNError,
    NuralNetwork, Outcome, WeightBiasData,
};
use crate::op::layout::{split_arg, split_into};
use crate::tensor::{extent, list1, list2, tensors_view, MetaV, Tensor, TensorMeta, TensorV};
use vstd::prelude::*;

verus! {

/// The activation between the two projections.
#[derive(Clone, Copy, Debug, PartialEq, Eq, Structural)]
pub enum Activation {
    /// Gated: the up projection yields gate and up side by side.
    SwiGLU,
    GeLU,
}

/// A feed-forward block of inner width `di`.
#[derive(Clone, Copy, Debug, PartialEq, Eq, Structural)]
pub struct Mlp {
    pub act: Activation,
    pub dt_w: Dtype,
    pub di: usize,
    pub up_bias: bool,
    pub down_bias: bool,
}

/// Parameters of one run.
#[derive(Clone, Copy, Debug, PartialEq, Eq, Structural)]
pub struct Args {
    /// Whether the second input is added to the result.
    pub residual: bool,
}

/// Weights of a feed-forward block.
#[derive(Clone, Debug)]
pub struct Data<T> {
    pub up: WeightBiasData<T>,
    pub down: WeightBiasData<T>,
}

impl Mlp {
    /// Rows of the up projection: twice the inner width where it is gated.
    pub open spec fn up_rows(self) -> int {
        match self.act {
            Activation::SwiGLU => 2 * self.di,
            Activation::GeLU => self.di as int,
        }
    }
}

/// The bias that a projection uses: the one given, if the network asks for
/// one.
pub open spec fn chosen<T>(wanted: bool, bias: Option<T>) -> Option<T> {
    if wanted {
        bias
    } else {
        None
    }
}

/// The names that the block gives are distinct.
pub proof fn lemma_mlp_names()
    ensures
        "up"@ != "down"@,
        "split"@ != "swiglu"@,
        "split"@ != "add"@,
        "swiglu"@ != "add"@,
        "gelu"@ != "add"@,
        ""@ == Seq::<char>::empty(),
{
    reveal_strlit("up");
    reveal_strlit("down");
    reveal_strlit("split");
    reveal_strlit("swiglu");
    reveal_strlit("gelu");
    reveal_strlit("add");
    reveal_strlit("");
    assert("up"@.len() == 2);
    assert("down"@.len() == 4);
    assert("split"@.len() == 5);
    assert("swiglu"@.len() == 6);
    assert("gelu"@.len() == 4);
    assert("add"@.len() == 3);
    assert(""@ =~= Seq::<char>::empty());
}

impl<T> NuralNetwork<T> for Bound<Mlp, Args, Data<T>> {
    /// The tensor to transform, followed by the tensor to add where a
    /// residual is asked for; an inner width that the machine can double.
    open spec fn accepts(&self, inputs: Seq<MetaV>) -> bool {
        &&& inputs.len() >= (if self.args.residual {
            2nat
        } else {
            1nat
        })
        &&& mlp_ready(self.nn)
    }

    open spec fn well_named(&self) -> bool {
        true
    }

    fn admits(&self, inputs: &Vec<TensorMeta>) -> (r: bool) {
        let wanted: usize = if self.args.residual {
            2
        } else {
            1
        };
        inputs.len() >= wanted && doubles(self.nn.di)
    }

    /// Refuses an input that is not a matrix of rows of known width; else
    /// descends into the projection `up`, applies the activation (a gated
    /// one after a `split` of the rows in two), descends into the
    /// projection `down` and, where asked for, adds the second input.
    open spec fn outcome(&self, scope: ScopeV<T>, inputs: Seq<TensorV>) -> Outcome<T> {
        if !rows_of_known_width(inputs[0].meta, 2) {
            Err(unfit(scope))
        } else {
            self.forward(scope, inputs)
        }
    }

    fn launch<'g>(self, inputs: Vec<Tensor>, ctx: Context<'g, T>) -> (r: Result<
        (Context<'g, T>, Vec<Tensor>),
        NNError,
    >) {
        let mut ctx = ctx;
        proof {
            crate::ctx::name::lemma_names_plain();
        }
        let ghost this = self;
        let Bound { nn, args, data } = self;
        let Data { up, down } = data;
        proof {
            lemma_mlp_names();
            assert(tensors_view(inputs@)[0] == inputs@[0]@);
            if args.residual {
                assert(tensors_view(inputs@)[1] == inputs@[1]@);
            }
        }
        let x = inputs[0].duplicate();
        if !has_known_width(&x, 2) {
            return Err(refuse(&ctx));
        }
        let d = x.last_extent();
        let di = nn.di;
        let up_rows = match nn.act {
            Activation::SwiGLU => 2 * di,
            Activation::GeLU => di,
        };
        let up = Linear {
            dt: nn.dt_w,
            rows: up_rows,
            cols: d,
            weight: up.weight,
            bias: if nn.up_bias {
                up.bias
            } else {
                None
            },
        };
        let down = Linear {
            dt: nn.dt_w,
            rows: d,
            cols: di,
            weight: down.weight,
            bias: if nn.down_bias {
                down.bias
            } else {
                None
            },
        };
        let h = ctx.descend("up", up, list1(x))?;
        let a = match nn.act {
            Activation::GeLU => ctx.apply("gelu", None, list1(h))?,
            Activation::SwiGLU => {
                let mut halves = ctx.apply_many(
                    "split",
                    Some(split_into(1, pair(di, di).as_slice())),
                    list1(h),
                    2,
                )?;
                let ghost both = tensors_view(halves@);
                assert(both[0] == halves@[0]@ && both[1] == halves@[1]@);
                let up = halves.remove(1);
                let gate = halves.remove(0);
                ctx.apply("swiglu", None, list2(gate, up))?
            },
        };
        let y = ctx.descend("down", down, list1(a))?;
        if args.residual {
            let y = ctx.apply("add", None, list2(inputs[1].duplicate(), y))?;
            Ok((ctx, list1(y)))
        } else {
            Ok((ctx, list1(y)))
        }
    }
}

/// The machine can hold twice the inner width, as an extent and as the
/// integer of an argument.
pub open spec fn mlp_ready(nn: Mlp) -> bool {
    2 * nn.di <= i64::MAX && 2 * nn.di <= usize::MAX
}

impl<T> Bound<Mlp, Args, Data<T>> {
    /// What the block leaves on a matrix of rows of known width.
    pub open spec fn forward(&self, scope: ScopeV<T>, inputs: Seq<TensorV>) -> Outcome<T> {
        let x = inputs[0];
        let d = extent(x.meta.shape.last()) as usize;
        let di = self.nn.di;
        let up = Linear {
            dt: self.nn.dt_w,
            rows: self.nn.up_rows() as usize,
            cols: d,
            weight: self.data.up.weight,
            bias: chosen(self.nn.up_bias, self.data.up.bias),
        };
        let down = Linear {
            dt: self.nn.dt_w,
            rows: d,
            cols: di,
            weight: self.data.down.weight,
            bias: chosen(self.nn.down_bias, self.data.down.bias),
        };
        let (scope, projected) = scope.descend("up"@, up, seq![x]);
        match projected {
            Err(e) => Err(e),
            Ok(h) => {
                let (scope, acted) = match self.nn.act {
                    Activation::GeLU => scope.apply("gelu"@, None, seq![h]),
                    Activation::SwiGLU => {
                        let (scope, halves) = scope.apply_many(
                            "split"@,
                            Some(split_arg(1, seq![di as int, di as int])),
                            seq![h],
                            2,
                        );
                        match halves {
                            Err(e) => (scope, Err(e)),
                            Ok(halves) => scope.apply("swiglu"@, None, seq![halves[0], halves[1]]),
                        }
                    },
                };
                match acted {
                    Err(e) => Err(e),
                    Ok(a) => {
                        let (scope, y) = scope.descend("down"@, down, seq![a]);
                        match y {
                            Err(e) => Err(e),
                            Ok(y) => if self.args.residual {
                                finished(scope.apply("add"@, None, seq![inputs[1], y]))
                            } else {
                                Ok((scope, seq![y]))
                            },
                        }
                    },
                }
            },
        }
    }
}

} // verus!
