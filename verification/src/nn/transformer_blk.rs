//! One transformer block: normalisation, self-attention, normalisation,
//! feed-forward, with a residual around each half.

use crate::ctx::nn_ctx::{Context, ScopeV};
use crate::dtype::Dtype;
use crate::nn::mlp::{self, mlp_ready, Activation, Mlp};
use crate::nn::normalization::{norm_ready, Normalization, Type};
use crate::nn::self_attn::{self, attn_ready, is_attn_ready, AttnMask, SelfAttn};
use crate::nn::{doubles, finished, Bound, NNError, NuralNetwork, Outcome, WeightBiasData};
use crate::tensor::{list1, list2, tensors_view, MetaV, Tensor, TensorMeta, TensorV};
use vstd::prelude::*;

verus! {

/// A transformer block: the normalisation that precedes each half, the
/// self-attention and the feed-forward block.
#[derive(Clone, Copy, Debug, PartialEq, Eq, Structural)]
pub struct TransformerBlk {
    pub norm: Normalization,
    pub self_attn: SelfAttn,
    pub mlp: Mlp,
}

impl TransformerBlk {
    /// The block of the LLaMA family: root mean square normalisation with
    /// the epsilon of bit pattern `epsilon`, rotary encoding under a causal
    /// mask, a gated feed-forward block, no bias anywhere.
    pub fn llama(
        dt_norm: Dtype,
        dt_w: Dtype,
        nh: usize,
        nkvh: usize,
        dh: usize,
        di: usize,
        epsilon: u64,
    ) -> (r: TransformerBlk)
        ensures
            r == (TransformerBlk {
                norm: Normalization { ty: Type::RmsNorm { epsilon }, dt_w: dt_norm },
                self_attn: SelfAttn {
                    dt_w,
                    nh,
                    nkvh,
                    dh,
                    qkv_bias: false,
                    use_rope: true,
                    mask: AttnMask::Causal,
                    o_bias: false,
                },
                mlp: Mlp { act: Activation::SwiGLU, dt_w, di, up_bias: false, down_bias: false },
            }),
    {
        TransformerBlk {
            norm: Normalization { ty: Type::RmsNorm { epsilon }, dt_w: dt_norm },
            self_attn: SelfAttn {
                dt_w,
                nh,
                nkvh,
                dh,
                qkv_bias: false,
                use_rope: true,
                mask: AttnMask::Causal,
                o_bias: false,
            },
            mlp: Mlp { act: Activation::SwiGLU, dt_w, di, up_bias: false, down_bias: false },
        }
    }

    /// The block of the Qwen2 family: that of LLaMA with a bias on the
    /// fused projection.
    pub fn qwen2(
        dt_norm: Dtype,
        dt_w: Dtype,
        nh: usize,
        nkvh: usize,
        dh: usize,
        di: usize,
        epsilon: u64,
    ) -> (r: TransformerBlk)
        ensures
            r == (TransformerBlk {
                self_attn: SelfAttn {
                    qkv_bias: true,
                    ..TransformerBlk::spec_llama(dt_norm, dt_w, nh, nkvh, dh, di, epsilon).self_attn
                },
                ..TransformerBlk::spec_llama(dt_norm, dt_w, nh, nkvh, dh, di, epsilon)
            }),
    {
        let mut llama = Self::llama(dt_norm, dt_w, nh, nkvh, dh, di, epsilon);
        llama.self_attn.qkv_bias = true;
        llama
    }

    /// The block of the vision tower of Qwen2-VL: that of GPT-2 with rotary
    /// encoding and without a mask.
    pub fn qw2vl_vit(dt_norm: Dtype, dt_w: Dtype, nh: usize, nkvh: usize, dh: usize, di: usize) -> (r:
        TransformerBlk)
        ensures
            r == (TransformerBlk {
                self_attn: SelfAttn {
                    use_rope: true,
                    mask: AttnMask::Unmasked,
                    ..TransformerBlk::spec_gpt2(dt_norm, dt_w, nh, nkvh, dh, di).self_attn
                },
                ..TransformerBlk::spec_gpt2(dt_norm, dt_w, nh, nkvh, dh, di)
            }),
    {
        let mut gpt2 = Self::gpt2(dt_norm, dt_w, nh, nkvh, dh, di);
        gpt2.self_attn.use_rope = true;
        gpt2.self_attn.mask = AttnMask::Unmasked;
        gpt2
    }

    /// The block of GPT-2: layer normalisation, no rotary encoding, a causal
    /// mask, a feed-forward block with GeLU, a bias everywhere.
    pub fn gpt2(dt_norm: Dtype, dt_w: Dtype, nh: usize, nkvh: usize, dh: usize, di: usize) -> (r:
        TransformerBlk)
        ensures
            r == TransformerBlk::spec_gpt2(dt_norm, dt_w, nh, nkvh, dh, di),
    {
        TransformerBlk {
            norm: Normalization { ty: Type::LayerNorm, dt_w: dt_norm },
            self_attn: SelfAttn {
                dt_w,
                nh,
                nkvh,
                dh,
                qkv_bias: true,
                use_rope: false,
                mask: AttnMask::Causal,
                o_bias: true,
            },
            mlp: Mlp { act: Activation::GeLU, dt_w, di, up_bias: true, down_bias: true },
        }
    }

    /// The block of the LLaMA family.
    pub open spec fn spec_llama(
        dt_norm: Dtype,
        dt_w: Dtype,
        nh: usize,
        nkvh: usize,
        dh: usize,
        di: usize,
        epsilon: u64,
    ) -> TransformerBlk {
        TransformerBlk {
            norm: Normalization { ty: Type::RmsNorm { epsilon }, dt_w: dt_norm },
            self_attn: SelfAttn {
                dt_w,
                nh,
                nkvh,
                dh,
                qkv_bias: false,
                use_rope: true,
                mask: AttnMask::Causal,
                o_bias: false,
            },
            mlp: Mlp { act: Activation::SwiGLU, dt_w, di, up_bias: false, down_bias: false },
        }
    }

    /// The block of GPT-2.
    pub open spec fn spec_gpt2(
        dt_norm: Dtype,
        dt_w: Dtype,
        nh: usize,
        nkvh: usize,
        dh: usize,
        di: usize,
    ) -> TransformerBlk {
        TransformerBlk {
            norm: Normalization { ty: Type::LayerNorm, dt_w: dt_norm },
            self_attn: SelfAttn {
                dt_w,
                nh,
                nkvh,
                dh,
                qkv_bias: true,
                use_rope: false,
                mask: AttnMask::Causal,
                o_bias: true,
            },
            mlp: Mlp { act: Activation::GeLU, dt_w, di, up_bias: true, down_bias: true },
        }
    }
}

/// Parameters of one run: the numbers of rows of the sine and of the cosine
/// table.
#[derive(Clone, Copy, Debug, PartialEq, Eq, Structural)]
pub struct Args {
    pub n_sin: usize,
    pub n_cos: usize,
}

/// Weights of a transformer block.
#[derive(Clone, Debug)]
pub struct Data<T> {
    pub pre_norm: WeightBiasData<T>,
    pub self_attn: self_attn::Data<T>,
    pub post_norm: WeightBiasData<T>,
    pub mlp: mlp::Data<T>,
}

/// The parts of a transformer block.
#[derive(Clone, Copy, Debug, PartialEq, Eq, Structural)]
pub enum Sub {
    PreNorm,
    SelfAttn,
    PostNorm,
    Mlp,
}

impl Sub {
    /// Name of the sub-scope of the part.
    pub open spec fn spec_name(self) -> Seq<char> {
        match self {
            Sub::PreNorm => "pre-norm"@,
            Sub::SelfAttn => "self-attn"@,
            Sub::PostNorm => "post-norm"@,
            Sub::Mlp => "mlp"@,
        }
    }

    /// Name of the sub-scope of the part.
    pub fn name(&self) -> (r: &'static str)
        ensures
            r@ == self.spec_name(),
    {
        match self {
            Sub::PreNorm => "pre-norm",
            Sub::SelfAttn => "self-attn",
            Sub::PostNorm => "post-norm",
            Sub::Mlp => "mlp",
        }
    }
}

/// The names of the parts are distinct.
pub proof fn lemma_blk_names()
    ensures
        "pre-norm"@ != "self-attn"@,
        "pre-norm"@ != "post-norm"@,
        "pre-norm"@ != "mlp"@,
        "self-attn"@ != "post-norm"@,
        "self-attn"@ != "mlp"@,
        "post-norm"@ != "mlp"@,
{
    reveal_strlit("pre-norm");
    reveal_strlit("self-attn");
    reveal_strlit("post-norm");
    reveal_strlit("mlp");
    assert("pre-norm"@.len() == 8);
    assert("self-attn"@.len() == 9);
    assert("self-attn"@[0] == 's');
    assert("post-norm"@.len() == 9);
    assert("post-norm"@[0] == 'p');
    assert("mlp"@.len() == 3);
}

impl<T> NuralNetwork<T> for Bound<TransformerBlk, Args, Data<T>> {
    /// The embeddings and the positions of their rows; parts that are ready.
    open spec fn accepts(&self, inputs: Seq<MetaV>) -> bool {
        &&& inputs.len() >= 2
        &&& norm_ready(self.nn.norm, self.data.pre_norm)
        &&& norm_ready(self.nn.norm, self.data.post_norm)
        &&& attn_ready(self.nn.self_attn, self.data.self_attn)
        &&& mlp_ready(self.nn.mlp)
    }

    open spec fn well_named(&self) -> bool {
        true
    }

    fn admits(&self, inputs: &Vec<TensorMeta>) -> (r: bool) {
        let biased = match self.nn.norm.ty {
            Type::LayerNorm => self.data.pre_norm.bias.is_some()
                && self.data.post_norm.bias.is_some(),
            Type::RmsNorm { .. } => true,
        };
        inputs.len() >= 2 && biased && is_attn_ready(&self.nn.self_attn, &self.data.self_attn)
            && doubles(self.nn.mlp.di)
    }

    /// Descends into `pre-norm` and `self-attn`, adds the input to what the
    /// attention gives, descends into `post-norm`, and into `mlp` with that
    /// sum as residual.
    open spec fn outcome(&self, scope: ScopeV<T>, inputs: Seq<TensorV>) -> Outcome<T> {
        let x = inputs[0];
        let pos = inputs[1];
        let pre = Bound { nn: self.nn.norm, args: (), data: self.data.pre_norm };
        let attn = Bound {
            nn: self.nn.self_attn,
            args: self_attn::Args { n_sin: self.args.n_sin, n_cos: self.args.n_cos },
            data: self.data.self_attn,
        };
        let post = Bound { nn: self.nn.norm, args: (), data: self.data.post_norm };
        let ffn = Bound { nn: self.nn.mlp, args: mlp::Args { residual: true }, data: self.data.mlp };
        let (scope, x1) = scope.descend("pre-norm"@, pre, seq![x]);
        match x1 {
            Err(e) => Err(e),
            Ok(x1) => {
                let (scope, a) = scope.descend("self-attn"@, attn, seq![x1, pos]);
                match a {
                    Err(e) => Err(e),
                    Ok(a) => {
                        let (scope, x2) = scope.apply("add"@, None, seq![x, a]);
                        match x2 {
                            Err(e) => Err(e),
                            Ok(x2) => {
                                let (scope, x3) = scope.descend("post-norm"@, post, seq![x2]);
                                match x3 {
                                    Err(e) => Err(e),
                                    Ok(x3) => finished(scope.descend("mlp"@, ffn, seq![x3, x2])),
                                }
                            },
                        }
                    },
                }
            },
        }
    }

    fn launch<'g>(self, inputs: Vec<Tensor>, ctx: Context<'g, T>) -> (r: Result<
        (Context<'g, T>, Vec<Tensor>),
        NNError,
    >) {
        let mut ctx = ctx;
        proof {
            crate::ctx::name::lemma_names_plain();
        }
        let Bound { nn, args, data } = self;
        let Data { pre_norm, self_attn, post_norm, mlp } = data;
        proof {
            lemma_blk_names();
            assert(tensors_view(inputs@)[0] == inputs@[0]@);
            assert(tensors_view(inputs@)[1] == inputs@[1]@);
        }
        let pre = Bound { nn: nn.norm, args: (), data: pre_norm };
        let attn = Bound {
            nn: nn.self_attn,
            args: self_attn::Args { n_sin: args.n_sin, n_cos: args.n_cos },
            data: self_attn,
        };
        let post = Bound { nn: nn.norm, args: (), data: post_norm };
        let ffn = Bound { nn: nn.mlp, args: mlp::Args { residual: true }, data: mlp };
        let x1 = ctx.descend(Sub::PreNorm.name(), pre, list1(inputs[0].duplicate()))?;
        let a = ctx.descend(Sub::SelfAttn.name(), attn, list2(x1, inputs[1].duplicate()))?;
        let x2 = ctx.apply("add", None, list2(inputs[0].duplicate(), a))?;
        let x3 = ctx.descend(Sub::PostNorm.name(), post, list1(x2.duplicate()))?;
        let y = ctx.descend(Sub::Mlp.name(), ffn, list2(x3, x2))?;
        Ok((ctx, list1(y)))
    }
}

} // verus!
