//! Self-attention: fused projection, heads, rotary encoding, attention,
//! output projection.

use crate::arg::{sizes_view, Arg, ArgV};
use crate::ctx::nn_ctx::{count, Context, ScopeV};
use crate::dtype::Dtype;
use crate::nn::embedding::{matrix, matrix_shape};
use crate::nn::linear::Linear;
use crate::nn::mlp::chosen;
use crate::nn::patch_embd::pair;
use crate::nn::{
    finished, fits, has_known_width, refuse, rows_of_known_width, unfit, Bound, NNError, NNErrorV,
    NuralNetwork, Outcome, WeightBiasData,
};
use crate::op::layout::{merge_arg, merge_from, split_arg, split_into, tile_arg, tile_into};
use crate::tensor::{extent, list1, list3, tensors_view, MetaV, Tensor, TensorMeta, TensorV};
use vstd::prelude::*;

verus! {

/// Which keys a query may attend to.
#[derive(Clone, Copy, Debug, PartialEq, Eq, Structural)]
pub enum AttnMask {
    /// All of them.
    Unmasked,
    /// Those that do not come after it.
    Causal,
}

/// Self-attention with `nh` query heads and `nkvh` key and value heads of
/// width `dh`.
#[derive(Clone, Copy, Debug, PartialEq, Eq, Structural)]
pub struct SelfAttn {
    pub dt_w: Dtype,
    pub nh: usize,
    pub nkvh: usize,
    pub dh: usize,
    pub qkv_bias: bool,
    pub use_rope: bool,
    pub mask: AttnMask,
    pub o_bias: bool,
}

/// Parameters of one run: the numbers of rows of the sine and of the cosine
/// table.
#[derive(Clone, Copy, Debug, PartialEq, Eq, Structural)]
pub struct Args {
    pub n_sin: usize,
    pub n_cos: usize,
}

/// Weights of a self-attention: the fused projection, the sine and cosine
/// tables where positions are encoded, and the output projection.
#[derive(Clone, Debug)]
pub struct Data<T> {
    pub qkv: WeightBiasData<T>,
    /// Sine table and cosine table.
    pub rope: Option<(T, T)>,
    pub output: WeightBiasData<T>,
}

impl SelfAttn {
    /// Width of all query heads together.
    pub open spec fn q_width(self) -> int {
        self.nh * self.dh
    }

    /// Width of all key heads together.
    pub open spec fn kv_width(self) -> int {
        self.nkvh * self.dh
    }

    /// Rows of the fused projection.
    pub open spec fn qkv_rows(self) -> int {
        self.q_width() + 2 * self.kv_width()
    }

    /// The argument that names the mask.
    pub open spec fn mask_arg(self) -> Option<ArgV> {
        match self.mask {
            AttnMask::Unmasked => None,
            AttnMask::Causal => Some(ArgV::Str("causal"@)),
        }
    }
}

/// The machine can hold the widths of the heads, as extents and as the
/// integers of an argument, and the tables are there where positions are
/// encoded.
pub open spec fn attn_ready<T>(nn: SelfAttn, data: Data<T>) -> bool {
    &&& nn.qkv_rows() <= i64::MAX
    &&& nn.qkv_rows() <= usize::MAX
    &&& nn.nh <= i64::MAX
    &&& nn.nkvh <= i64::MAX
    &&& nn.dh <= i64::MAX
    &&& nn.use_rope ==> data.rope is Some
}

/// Whether the self-attention `nn` with the weights `data` is ready.
pub fn is_attn_ready<T>(nn: &SelfAttn, data: &Data<T>) -> (r: bool)
    ensures
        r == attn_ready(*nn, *data),
{
    proof {
        assert(nn.nh * nn.dh >= 0 && nn.nkvh * nn.dh >= 0) by (nonlinear_arith);
    }
    let rows = match (nn.nh.checked_mul(nn.dh), nn.nkvh.checked_mul(nn.dh)) {
        (Some(q), Some(kv)) => match kv.checked_mul(2) {
            Some(both) => q.checked_add(both),
            None => None,
        },
        _ => None,
    };
    let rows_fit = match rows {
        Some(rows) => fits(rows),
        None => false,
    };
    rows_fit && fits(nn.nh) && fits(nn.nkvh) && fits(nn.dh) && (!nn.use_rope
        || data.rope.is_some())
}

/// Three tensors at hand, or the error that has stopped the launch.
pub type Heads<T> = (ScopeV<T>, Result<(TensorV, TensorV, TensorV), NNErrorV>);

/// Cuts the fused projection `qkv` into queries, keys and values, and each
/// of them into its heads.
pub open spec fn headed<T>(scope: ScopeV<T>, nn: SelfAttn, qkv: TensorV) -> Heads<T> {
    let (scope, parts) = scope.apply_many(
        "split"@,
        Some(split_arg(1, seq![nn.q_width(), nn.kv_width(), nn.kv_width()])),
        seq![qkv],
        3,
    );
    match parts {
        Err(e) => (scope, Err(e)),
        Ok(parts) => {
            let (scope, q) = scope.apply(
                "tile"@,
                Some(tile_arg(1, seq![nn.nh as int, nn.dh as int])),
                seq![parts[0]],
            );
            match q {
                Err(e) => (scope, Err(e)),
                Ok(q) => {
                    let (scope, k) = scope.apply(
                        "tile"@,
                        Some(tile_arg(1, seq![nn.nkvh as int, nn.dh as int])),
                        seq![parts[1]],
                    );
                    match k {
                        Err(e) => (scope, Err(e)),
                        Ok(k) => {
                            let (scope, v) = scope.apply(
                                "tile"@,
                                Some(tile_arg(1, seq![nn.nkvh as int, nn.dh as int])),
                                seq![parts[2]],
                            );
                            match v {
                                Err(e) => (scope, Err(e)),
                                Ok(v) => (scope, Ok((q, k, v))),
                            }
                        },
                    }
                },
            }
        },
    }
}

/// Two tensors at hand, or the error that has stopped the launch.
pub type Pair<T> = (ScopeV<T>, Result<(TensorV, TensorV), NNErrorV>);

/// Loads the tables `sin` and `cos` and encodes the positions `pos` into
/// the queries `q` and the keys `k`.
pub open spec fn rotated<T>(
    scope: ScopeV<T>,
    nn: SelfAttn,
    args: Args,
    tables: (T, T),
    q: TensorV,
    k: TensorV,
    pos: TensorV,
) -> Pair<T> {
    let half = (nn.dh / 2) as usize;
    let (scope, sin) = scope.load(
        "sin"@,
        MetaV { dt: nn.dt_w, shape: matrix(args.n_sin, half) },
        tables.0,
    );
    let (scope, cos) = scope.load(
        "cos"@,
        MetaV { dt: nn.dt_w, shape: matrix(args.n_cos, half) },
        tables.1,
    );
    let (scope, q) = scope.apply("rope"@, None, seq![q, pos, sin, cos]);
    match q {
        Err(e) => (scope, Err(e)),
        Ok(q) => {
            let (scope, k) = scope.apply("rope"@, None, seq![k, pos, sin, cos]);
            match k {
                Err(e) => (scope, Err(e)),
                Ok(k) => (scope, Ok((q, k))),
            }
        },
    }
}

/// The names that the self-attention gives are distinct.
pub proof fn lemma_attn_names()
    ensures
        "qkv"@ != "output"@,
        "sin"@ != "cos"@,
        "split"@ != "tile"@,
        "split"@ != "rope"@,
        "split"@ != "attention"@,
        "split"@ != "merge"@,
        "tile"@ != "rope"@,
        "tile"@ != "attention"@,
        "tile"@ != "merge"@,
        "rope"@ != "attention"@,
        "rope"@ != "merge"@,
        "attention"@ != "merge"@,
{
    reveal_strlit("qkv");
    reveal_strlit("output");
    reveal_strlit("sin");
    reveal_strlit("cos");
    reveal_strlit("split");
    reveal_strlit("tile");
    reveal_strlit("rope");
    reveal_strlit("attention");
    reveal_strlit("merge");
    assert("qkv"@.len() == 3);
    assert("output"@.len() == 6);
    assert("sin"@[0] == 's');
    assert("cos"@[0] == 'c');
    assert("split"@.len() == 5);
    assert("split"@[0] == 's');
    assert("tile"@.len() == 4);
    assert("tile"@[0] == 't');
    assert("rope"@.len() == 4);
    assert("rope"@[0] == 'r');
    assert("attention"@.len() == 9);
    assert("merge"@.len() == 5);
    assert("merge"@[0] == 'm');
}

/// The list of `a`, `b` and `c`.
pub fn triple(a: usize, b: usize, c: usize) -> (r: Vec<usize>)
    ensures
        r@ == seq![a, b, c],
        sizes_view(r@) == seq![a as int, b as int, c as int],
{
    let mut v: Vec<usize> = Vec::new();
    v.push(a);
    v.push(b);
    v.push(c);
    proof {
        assert(sizes_view(v@) =~= seq![a as int, b as int, c as int]);
    }
    v
}

/// Emits the cut of the fused projection into heads.
pub fn split_heads<'g, T>(ctx: &mut Context<'g, T>, nn: SelfAttn, qkv: Tensor) -> (r: Result<
    (Tensor, Tensor, Tensor),
    NNError,
>)
    requires
        old(ctx)@.wf(),
        old(ctx)@.graph.owns(qkv@),
        count(old(ctx)@.ops, "split"@) < usize::MAX,
        count(old(ctx)@.ops, "tile"@) + 3 <= usize::MAX,
        nn.qkv_rows() <= i64::MAX,
        nn.qkv_rows() <= usize::MAX,
        nn.nh <= i64::MAX,
        nn.nkvh <= i64::MAX,
        nn.dh <= i64::MAX,
    ensures
        final(ctx)@ == headed(old(ctx)@, nn, qkv@).0,
        match r {
            Ok((q, k, v)) => headed(old(ctx)@, nn, qkv@).1 == Ok::<
                (TensorV, TensorV, TensorV),
                NNErrorV,
            >((q@, k@, v@)) && final(ctx)@.graph.owns(q@) && final(ctx)@.graph.owns(k@)
                && final(ctx)@.graph.owns(v@),
            Err(e) => headed(old(ctx)@, nn, qkv@).1 == Err::<
                (TensorV, TensorV, TensorV),
                NNErrorV,
            >(e@),
        },
        final(ctx)@.continues(old(ctx)@),
        final(ctx)@.names == old(ctx)@.names,
        final(ctx)@.sub == old(ctx)@.sub,
        forall|name: Seq<char>|
            name != "split"@ && name != "tile"@ ==> count(final(ctx)@.ops, name) == count(
                old(ctx)@.ops,
                name,
            ),
        forall|since: nat| #[trigger] old(ctx)@.tidy(since) ==> final(ctx)@.tidy(since),
{
    proof {
        crate::ctx::name::lemma_names_plain();
        lemma_attn_names();
        assert(nn.nh * nn.dh >= 0 && nn.nkvh * nn.dh >= 0) by (nonlinear_arith);
    }
    let q_width = nn.nh * nn.dh;
    let kv_width = nn.nkvh * nn.dh;
    let mut parts = ctx.apply_many(
        "split",
        Some(split_into(1, triple(q_width, kv_width, kv_width).as_slice())),
        list1(qkv),
        3,
    )?;
    let ghost all = tensors_view(parts@);
    assert(all[0] == parts@[0]@ && all[1] == parts@[1]@ && all[2] == parts@[2]@);
    let v = parts.remove(2);
    let k = parts.remove(1);
    let q = parts.remove(0);
    let q = ctx.apply("tile", Some(tile_into(1, pair(nn.nh, nn.dh).as_slice())), list1(q))?;
    let k = ctx.apply("tile", Some(tile_into(1, pair(nn.nkvh, nn.dh).as_slice())), list1(k))?;
    let v = ctx.apply("tile", Some(tile_into(1, pair(nn.nkvh, nn.dh).as_slice())), list1(v))?;
    Ok((q, k, v))
}

/// Emits the encoding of the positions into queries and keys.
pub fn rotate<'g, T>(
    ctx: &mut Context<'g, T>,
    nn: SelfAttn,
    args: Args,
    tables: (T, T),
    q: Tensor,
    k: Tensor,
    pos: &Tensor,
) -> (r: Result<(Tensor, Tensor), NNError>)
    requires
        old(ctx)@.wf(),
        old(ctx)@.graph.owns(q@),
        old(ctx)@.graph.owns(k@),
        old(ctx)@.graph.owns(pos@),
        count(old(ctx)@.ops, "rope"@) + 2 <= usize::MAX,
        !old(ctx)@.names.contains("sin"@),
        !old(ctx)@.names.contains("cos"@),
    ensures
        final(ctx)@ == rotated(old(ctx)@, nn, args, tables, q@, k@, pos@).0,
        match r {
            Ok((q2, k2)) => rotated(old(ctx)@, nn, args, tables, q@, k@, pos@).1 == Ok::<
                (TensorV, TensorV),
                NNErrorV,
            >((q2@, k2@)) && final(ctx)@.graph.owns(q2@) && final(ctx)@.graph.owns(k2@),
            Err(e) => rotated(old(ctx)@, nn, args, tables, q@, k@, pos@).1 == Err::<
                (TensorV, TensorV),
                NNErrorV,
            >(e@),
        },
        final(ctx)@.continues(old(ctx)@),
        final(ctx)@.sub == old(ctx)@.sub,
        forall|name: Seq<char>|
            name != "rope"@ ==> count(final(ctx)@.ops, name) == count(old(ctx)@.ops, name),
        forall|since: nat| #[trigger] old(ctx)@.tidy(since) ==> final(ctx)@.tidy(since),
{
    proof {
        crate::ctx::name::lemma_names_plain();
        lemma_attn_names();
    }
    let half = nn.dh / 2;
    let (sin, cos) = tables;
    let sin = ctx.load_external("sin", nn.dt_w, matrix_shape(args.n_sin, half), sin);
    let cos = ctx.load_external("cos", nn.dt_w, matrix_shape(args.n_cos, half), cos);
    let mut first: Vec<Tensor> = Vec::new();
    first.push(q);
    first.push(pos.duplicate());
    first.push(sin.duplicate());
    first.push(cos.duplicate());
    proof {
        assert(tensors_view(first@) =~= seq![q@, pos@, sin@, cos@]);
    }
    let q = ctx.apply("rope", None, first)?;
    let mut second: Vec<Tensor> = Vec::new();
    second.push(k);
    second.push(pos.duplicate());
    second.push(sin);
    second.push(cos);
    proof {
        assert(tensors_view(second@) =~= seq![k@, pos@, sin@, cos@]);
    }
    let k = ctx.apply("rope", None, second)?;
    Ok((q, k))
}

impl<T> Bound<SelfAttn, Args, Data<T>> {
    /// What the self-attention leaves on a matrix of rows of known width.
    pub open spec fn forward(&self, scope: ScopeV<T>, inputs: Seq<TensorV>) -> Outcome<T> {
        let x = inputs[0];
        let pos = inputs[1];
        let nn = self.nn;
        let d = extent(x.meta.shape.last()) as usize;
        let qkv = Linear {
            dt: nn.dt_w,
            rows: nn.qkv_rows() as usize,
            cols: d,
            weight: self.data.qkv.weight,
            bias: chosen(nn.qkv_bias, self.data.qkv.bias),
        };
        let output = Linear {
            dt: nn.dt_w,
            rows: d,
            cols: nn.q_width() as usize,
            weight: self.data.output.weight,
            bias: chosen(nn.o_bias, self.data.output.bias),
        };
        let (scope, fused) = scope.descend("qkv"@, qkv, seq![x]);
        match fused {
            Err(e) => Err(e),
            Ok(fused) => {
                let (scope, heads) = headed(scope, nn, fused);
                match heads {
                    Err(e) => Err(e),
                    Ok((q, k, v)) => {
                        let (scope, encoded) = if nn.use_rope {
                            rotated(scope, nn, self.args, self.data.rope->0, q, k, pos)
                        } else {
                            (scope, Ok((q, k)))
                        };
                        match encoded {
                            Err(e) => Err(e),
                            Ok((q, k)) => {
                                let (scope, a) = scope.apply(
                                    "attention"@,
                                    nn.mask_arg(),
                                    seq![q, k, v],
                                );
                                match a {
                                    Err(e) => Err(e),
                                    Ok(a) => {
                                        let (scope, a) = scope.apply(
                                            "merge"@,
                                            Some(merge_arg(1, 2)),
                                            seq![a],
                                        );
                                        match a {
                                            Err(e) => Err(e),
                                            Ok(a) => finished(
                                                scope.descend("output"@, output, seq![a]),
                                            ),
                                        }
                                    },
                                }
                            },
                        }
                    },
                }
            },
        }
    }
}

impl<T> NuralNetwork<T> for Bound<SelfAttn, Args, Data<T>> {
    /// The tensor to attend over and the positions of its rows.
    open spec fn accepts(&self, inputs: Seq<MetaV>) -> bool {
        inputs.len() >= 2 && attn_ready(self.nn, self.data)
    }

    open spec fn well_named(&self) -> bool {
        true
    }

    fn admits(&self, inputs: &Vec<TensorMeta>) -> (r: bool) {
        inputs.len() >= 2 && is_attn_ready(&self.nn, &self.data)
    }

    /// Refuses an input that is not a matrix of rows of known width; else
    /// descends into the projection `qkv`, cuts its result into the heads
    /// of queries, keys and values, encodes the positions where asked for,
    /// calls `attention`, merges the heads and descends into the projection
    /// `output`.
    open spec fn outcome(&self, scope: ScopeV<T>, inputs: Seq<TensorV>) -> Outcome<T> {
        if !rows_of_known_width(inputs[0].meta, 2) {
            Err(unfit(scope))
        } else {
            self.forward(scope, inputs)
        }
    }

    fn launch<'g>(self, inputs: Vec<Tensor>, ctx: Context<'g, T>) -> (r: Result<
        (Context<'g, T>, Vec<Tensor>),
        NNError,
    >) {
        let mut ctx = ctx;
        proof {
            crate::ctx::name::lemma_names_plain();
        }
        let Bound { nn, args, data } = self;
        let Data { qkv, rope, output } = data;
        proof {
            lemma_attn_names();
            reveal_strlit("causal");
            assert(tensors_view(inputs@)[0] == inputs@[0]@);
            assert(tensors_view(inputs@)[1] == inputs@[1]@);
            assert(nn.nh * nn.dh >= 0 && nn.nkvh * nn.dh >= 0) by (nonlinear_arith);
        }
        let x = inputs[0].duplicate();
        if !has_known_width(&x, 2) {
            return Err(refuse(&ctx));
        }
        let d = x.last_extent();
        let q_width = nn.nh * nn.dh;
        let qkv = Linear {
            dt: nn.dt_w,
            rows: q_width + 2 * (nn.nkvh * nn.dh),
            cols: d,
            weight: qkv.weight,
            bias: if nn.qkv_bias {
                qkv.bias
            } else {
                None
            },
        };
        let output = Linear {
            dt: nn.dt_w,
            rows: d,
            cols: q_width,
            weight: output.weight,
            bias: if nn.o_bias {
                output.bias
            } else {
                None
            },
        };
        let fused = ctx.descend("qkv", qkv, list1(x))?;
        let (q, k, v) = split_heads(&mut ctx, nn, fused)?;
        assert(count(ctx@.ops, "rope"@) == 0 && count(ctx@.ops, "attention"@) == 0 && count(
            ctx@.ops,
            "merge"@,
        ) == 0);
        let (q, k) = match (nn.use_rope, rope) {
            (true, Some(tables)) => rotate(&mut ctx, nn, args, tables, q, k, &inputs[1])?,
            _ => (q, k),
        };
        assert(count(ctx@.ops, "attention"@) == 0 && count(ctx@.ops, "merge"@) == 0);
        let mask = match nn.mask {
            AttnMask::Unmasked => None,
            AttnMask::Causal => Some(Arg::Str("causal".to_owned())),
        };
        let a = ctx.apply("attention", mask, list3(q, k, v))?;
        let a = ctx.apply("merge", Some(merge_from(1, 2)), list1(a))?;
        let y = ctx.descend("output", output, list1(a))?;
        Ok((ctx, list1(y)))
    }
}

} // verus!
