use nn::arg::Arg;
use nn::ctx::GraphBuilder;
use nn::dim::Dim;
use nn::dtype::Dtype;
use nn::nn::mlp;
use nn::nn::self_attn;
use nn::nn::transformer_blk::{Args, Data, Sub, TransformerBlk};
use nn::nn::{Bound, NuralNetwork, WeightBiasData};
use nn::graph::Producer;
use nn::op::{Op, OpError, Operator};
use nn::tensor::TensorMeta;

fn ints(extents: &[usize]) -> Vec<Dim> {
    extents.iter().map(|&n| Dim::Int(n)).collect()
}

fn builder() -> GraphBuilder {
    let mut builder = GraphBuilder::new();
    builder
        .register_op("rmsnorm", Op::RmsNorm)
        .register_op("layernorm", Op::LayerNorm)
        .register_op("linear", Op::Linear)
        .register_op("split", Op::Split)
        .register_op("tile", Op::Tile)
        .register_op("merge", Op::Merge)
        .register_op("rope", Op::Rope)
        .register_op("attention", Op::Attention)
        .register_op("swiglu", Op::Swiglu)
        .register_op("gelu", Op::Gelu)
        .register_op("add", Op::Add);
    builder
}

fn weight(name: &'static str, bias: Option<&'static str>) -> WeightBiasData<&'static str> {
    WeightBiasData { weight: name, bias }
}

#[test]
fn transformer_blk_test() {
    const DT: Dtype = Dtype::F16;
    const DT_NORM: Dtype = Dtype::F32;
    const NH: usize = 64;
    const NKVH: usize = 8;
    const DH: usize = 128;
    const N: usize = 11;
    const D: usize = 2048;
    const MAX_CTX: usize = 4096;
    const DI: usize = 11008;

    let nn = Bound {
        nn: TransformerBlk::llama(DT_NORM, DT, NH, NKVH, DH, DI, 1e-5f64.to_bits()),
        args: Args { n_sin: MAX_CTX, n_cos: MAX_CTX },
        data: Data {
            pre_norm: weight("pre_norm", None),
            self_attn: self_attn::Data {
                qkv: weight("qkv", None),
                rope: Some(("sin", "cos")),
                output: weight("output", None),
            },
            post_norm: weight("post_norm", None),
            mlp: mlp::Data { up: weight("up", None), down: weight("down", None) },
        },
    };
    let inputs = vec![
        TensorMeta::new(DT, ints(&[N, D])),
        TensorMeta::new(Dtype::U32, ints(&[N])),
    ];
    assert!(nn.admits(&inputs));
    let graph = builder().build(nn, inputs).unwrap();

    let names: Vec<&str> = graph.nodes().iter().map(|n| n.name.as_str()).collect();
    assert_eq!(
        names,
        [
            "Ω.pre-norm:rmsnorm",
            "Ω.self-attn.qkv:linear",
            "Ω.self-attn:split",
            "Ω.self-attn:tile",
            "Ω.self-attn:tile-1",
            "Ω.self-attn:tile-2",
            "Ω.self-attn:rope",
            "Ω.self-attn:rope-1",
            "Ω.self-attn:attention",
            "Ω.self-attn:merge",
            "Ω.self-attn.output:linear",
            "Ω:add",
            "Ω.post-norm:rmsnorm",
            "Ω.mlp.up:linear",
            "Ω.mlp:split",
            "Ω.mlp:swiglu",
            "Ω.mlp.down:linear",
            "Ω.mlp:add",
        ]
    );

    let attention = graph.nodes().iter().find(|n| n.op == "attention").unwrap();
    assert_eq!(attention.arg, Some(Arg::Str("causal".to_string())));
    assert_eq!(attention.inputs[0].shape(), &ints(&[N, NH, DH])[..]);
    assert_eq!(attention.inputs[1].shape(), &ints(&[N, NKVH, DH])[..]);
    assert_eq!(attention.inputs[2].shape(), &ints(&[N, NKVH, DH])[..]);
    assert_eq!(attention.outputs[0].shape(), &ints(&[N, NH, DH])[..]);

    assert_eq!(graph.outputs().len(), 1);
    assert_eq!(graph.outputs()[0].shape(), &ints(&[N, D])[..]);
    assert_eq!(graph.outputs()[0].dt(), DT);

    let loaded: Vec<(&str, &[Dim], Dtype, &str)> = graph
        .externals_in()
        .iter()
        .map(|e| (e.name.as_str(), e.tensor.shape(), e.tensor.dt(), e.item))
        .collect();
    assert_eq!(
        loaded,
        [
            ("Ω.pre-norm.weight", &ints(&[D])[..], DT_NORM, "pre_norm"),
            ("Ω.self-attn.qkv.weight", &ints(&[(NH + NKVH + NKVH) * DH, D])[..], DT, "qkv"),
            ("Ω.self-attn.sin", &ints(&[MAX_CTX, DH / 2])[..], DT, "sin"),
            ("Ω.self-attn.cos", &ints(&[MAX_CTX, DH / 2])[..], DT, "cos"),
            ("Ω.self-attn.output.weight", &ints(&[D, NH * DH])[..], DT, "output"),
            ("Ω.post-norm.weight", &ints(&[D])[..], DT_NORM, "post_norm"),
            ("Ω.mlp.up.weight", &ints(&[DI * 2, D])[..], DT, "up"),
            ("Ω.mlp.down.weight", &ints(&[D, DI])[..], DT, "down"),
        ]
    );
}

#[test]
fn the_block_graph_keeps_the_invariants() {
    let nn = Bound {
        nn: TransformerBlk::qwen2(Dtype::F32, Dtype::F16, 8, 2, 16, 64, 1e-6f64.to_bits()),
        args: Args { n_sin: 32, n_cos: 32 },
        data: Data {
            pre_norm: weight("a", None),
            self_attn: self_attn::Data {
                qkv: weight("b", Some("bb")),
                rope: Some(("s", "c")),
                output: weight("c", None),
            },
            post_norm: weight("d", None),
            mlp: mlp::Data { up: weight("e", None), down: weight("f", None) },
        },
    };
    let inputs = vec![
        TensorMeta::new(Dtype::F16, ints(&[5, 128])),
        TensorMeta::new(Dtype::U32, ints(&[5])),
    ];
    let builder = builder();
    let graph = builder.build(nn, inputs).unwrap();
    assert_eq!(graph.nodes().len(), 18);
    for (j, node) in graph.nodes().iter().enumerate() {
        // no two nodes have the same name
        for other in &graph.nodes()[j + 1..] {
            assert_ne!(node.name, other.name);
        }
        // every input is made before the node runs, with the meta it is read with
        for input in &node.inputs {
            assert!(graph.owns(input));
            match graph.slots()[input.id()].from {
                Producer::Node(p, k) => {
                    assert!(p < j);
                    assert_eq!(&graph.nodes()[p].outputs[k], input);
                }
                Producer::External(e) => assert_eq!(&graph.externals_in()[e].tensor, input),
                Producer::Input(k) => assert_eq!(&graph.inputs()[k], input),
            }
            assert!(node.outputs.iter().all(|o| o.id() != input.id()));
        }
        // inference gives the same metas again
        let op = builder.op_lib().get(&node.op).unwrap();
        let metas: Vec<TensorMeta> = node.inputs.iter().map(|t| t.meta().clone()).collect();
        let again = op.infer(&metas, node.arg.as_ref()).unwrap();
        let recorded: Vec<TensorMeta> = node.outputs.iter().map(|t| t.meta().clone()).collect();
        assert_eq!(again, recorded);
    }
    let mut ids: Vec<usize> = graph.nodes().iter().flat_map(|n| n.outputs.iter().map(|t| t.id())).collect();
    ids.extend(graph.externals_in().iter().map(|e| e.tensor.id()));
    ids.extend(graph.inputs().iter().map(|t| t.id()));
    ids.sort();
    assert_eq!(ids, (0..graph.slots().len()).collect::<Vec<_>>());
}

#[test]
fn the_families_differ_where_they_should() {
    let llama = TransformerBlk::llama(Dtype::F32, Dtype::F16, 32, 8, 64, 1024, 7);
    let qwen2 = TransformerBlk::qwen2(Dtype::F32, Dtype::F16, 32, 8, 64, 1024, 7);
    let gpt2 = TransformerBlk::gpt2(Dtype::F32, Dtype::F16, 12, 12, 64, 3072);
    let vit = TransformerBlk::qw2vl_vit(Dtype::F32, Dtype::F16, 12, 12, 64, 3072);
    assert!(!llama.self_attn.qkv_bias && qwen2.self_attn.qkv_bias);
    assert_eq!(llama.norm, qwen2.norm);
    assert_eq!(llama.mlp, qwen2.mlp);
    assert_eq!(llama.norm.ty, nn::nn::normalization::Type::RmsNorm { epsilon: 7 });
    assert_eq!(llama.self_attn.mask, self_attn::AttnMask::Causal);
    assert!(llama.self_attn.use_rope && !gpt2.self_attn.use_rope && vit.self_attn.use_rope);
    assert_eq!(gpt2.self_attn.mask, self_attn::AttnMask::Causal);
    assert_eq!(vit.self_attn.mask, self_attn::AttnMask::Unmasked);
    assert_eq!(gpt2.mlp, vit.mlp);
    assert_eq!(gpt2.mlp.act, mlp::Activation::GeLU);
    assert!(gpt2.mlp.up_bias && gpt2.mlp.down_bias && gpt2.self_attn.o_bias);
    assert_eq!(llama.mlp.act, mlp::Activation::SwiGLU);
}

#[test]
fn a_gpt2_block_has_biases_and_no_rope() {
    let nn = Bound {
        nn: TransformerBlk::gpt2(Dtype::F32, Dtype::F32, 4, 4, 8, 64),
        args: Args { n_sin: 0, n_cos: 0 },
        data: Data {
            pre_norm: weight("ln1.w", Some("ln1.b")),
            self_attn: self_attn::Data {
                qkv: weight("qkv.w", Some("qkv.b")),
                rope: None,
                output: weight("out.w", Some("out.b")),
            },
            post_norm: weight("ln2.w", Some("ln2.b")),
            mlp: mlp::Data { up: weight("up.w", Some("up.b")), down: weight("down.w", Some("down.b")) },
        },
    };
    let inputs = vec![
        TensorMeta::new(Dtype::F32, ints(&[5, 32])),
        TensorMeta::new(Dtype::U32, ints(&[5])),
    ];
    assert!(nn.admits(&inputs));
    let graph = builder().build(nn, inputs).unwrap();
    let ops: Vec<&str> = graph.nodes().iter().map(|n| n.op.as_str()).collect();
    assert_eq!(
        ops,
        [
            "layernorm", "linear", "split", "tile", "tile", "tile", "attention", "merge",
            "linear", "add", "layernorm", "linear", "gelu", "linear", "add"
        ]
    );
    assert_eq!(graph.externals_in().len(), 12);
    assert_eq!(graph.nodes()[1].inputs.len(), 3);
    assert_eq!(graph.outputs()[0].shape(), &ints(&[5, 32])[..]);
}

#[test]
fn a_block_without_the_tables_it_needs_is_not_admitted() {
    let nn = Bound {
        nn: TransformerBlk::llama(Dtype::F32, Dtype::F32, 4, 4, 8, 64, 0),
        args: Args { n_sin: 16, n_cos: 16 },
        data: Data {
            pre_norm: weight("a", None),
            self_attn: self_attn::Data { qkv: weight("b", None), rope: None, output: weight("c", None) },
            post_norm: weight("d", None),
            mlp: mlp::Data { up: weight("e", None), down: weight("f", None) },
        },
    };
    let inputs = vec![
        TensorMeta::new(Dtype::F32, ints(&[5, 32])),
        TensorMeta::new(Dtype::U32, ints(&[5])),
    ];
    assert!(!nn.admits(&inputs));
}

#[test]
fn a_block_refuses_rows_of_unknown_width() {
    let nn = Bound {
        nn: TransformerBlk::llama(Dtype::F32, Dtype::F32, 4, 4, 8, 64, 0),
        args: Args { n_sin: 16, n_cos: 16 },
        data: Data {
            pre_norm: weight("a", None),
            self_attn: self_attn::Data {
                qkv: weight("b", None),
                rope: Some(("s", "c")),
                output: weight("c", None),
            },
            post_norm: weight("d", None),
            mlp: mlp::Data { up: weight("e", None), down: weight("f", None) },
        },
    };
    let inputs = vec![
        TensorMeta::new(Dtype::F32, vec![Dim::Int(5), Dim::Sym("d".to_string())]),
        TensorMeta::new(Dtype::U32, ints(&[5])),
    ];
    assert!(nn.admits(&inputs));
    let err = builder().build(nn, inputs).unwrap_err();
    assert_eq!(err.name, "Ω.pre-norm");
    assert_eq!(err.err, OpError::ShapeError);
}

#[test]
fn a_failing_call_is_named_in_full() {
    let nn = Bound {
        nn: TransformerBlk::llama(Dtype::F32, Dtype::F32, 4, 3, 8, 64, 0),
        args: Args { n_sin: 16, n_cos: 16 },
        data: Data {
            pre_norm: weight("a", None),
            self_attn: self_attn::Data {
                qkv: weight("b", None),
                rope: Some(("s", "c")),
                output: weight("c", None),
            },
            post_norm: weight("d", None),
            mlp: mlp::Data { up: weight("e", None), down: weight("f", None) },
        },
    };
    let inputs = vec![
        TensorMeta::new(Dtype::F32, ints(&[5, 32])),
        TensorMeta::new(Dtype::U32, ints(&[5])),
    ];
    let err = builder().build(nn, inputs).unwrap_err();
    assert_eq!(err.name, "Ω.self-attn:attention");
    assert_eq!(err.err, OpError::ShapeError);
}

#[test]
fn the_parts_have_their_names() {
    assert_eq!(Sub::PreNorm.name(), "pre-norm");
    assert_eq!(Sub::SelfAttn.name(), "self-attn");
    assert_eq!(Sub::PostNorm.name(), "post-norm");
    assert_eq!(Sub::Mlp.name(), "mlp");
}
