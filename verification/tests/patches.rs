use nn::arg::Arg;
use nn::ctx::GraphBuilder;
use nn::dim::Dim;
use nn::dtype::Dtype;
use nn::nn::conv::{self, ConvLayer};
use nn::nn::mlp::{self, Activation, Mlp};
use nn::nn::normalization::{Normalization, Type, LAYER_NORM_EPSILON};
use nn::nn::patch_embd::PatchEmbd;
use nn::nn::qw2vl::merger::{self, Merger};
use nn::nn::qw2vl::patch_embd as vit;
use nn::nn::self_attn;
use nn::nn::transformer_blk::{self, TransformerBlk};
use nn::nn::{Bound, NuralNetwork, WeightBiasData};
use nn::op::{Op, OpError};
use nn::tensor::TensorMeta;

fn ints(extents: &[usize]) -> Vec<Dim> {
    extents.iter().map(|&n| Dim::Int(n)).collect()
}

fn builder() -> GraphBuilder {
    let mut builder = GraphBuilder::new();
    builder.register_op("conv", Op::Conv);
    builder.register_op("add", Op::Add);
    builder.register_op("transpose", Op::Transpose);
    builder.register_op("rearrange", Op::Rearrange);
    builder.register_op("tile", Op::Tile);
    builder.register_op("merge", Op::Merge);
    builder.register_op("layernorm", Op::LayerNorm);
    builder.register_op("linear", Op::Linear);
    builder.register_op("gelu", Op::Gelu);
    builder
        .register_op("split", Op::Split)
        .register_op("rope", Op::Rope)
        .register_op("attention", Op::Attention);
    builder
}

fn int_entry(key: &str, val: i64) -> (String, Arg) {
    (key.to_string(), Arg::Int(val))
}

fn ints_entry(key: &str, vals: &[i64]) -> (String, Arg) {
    (key.to_string(), Arg::Arr(vals.iter().map(|&v| Arg::Int(v)).collect()))
}

const FOLD: [&str; 14] = [
    "transpose", "rearrange", "tile", "merge", "tile", "merge", "transpose", "rearrange", "tile",
    "merge", "tile", "merge", "merge", "rearrange",
];

#[test]
fn patch_embedding_of_an_image() {
    let nn = PatchEmbd { dt: Dtype::F16, shape: [1280, 3, 14, 14], patch_embd: "w0", patch_embd1: "w1" };
    let inputs = vec![
        TensorMeta::new(Dtype::F16, ints(&[1, 3, 336, 476])),
        TensorMeta::new(Dtype::F16, ints(&[1280])),
    ];
    assert!(nn.admits(&inputs));
    let graph = builder().build(nn, inputs).unwrap();

    let ops: Vec<&str> = graph.nodes().iter().map(|n| n.op.as_str()).collect();
    let mut expected = vec!["conv", "conv", "add"];
    expected.extend(FOLD);
    assert_eq!(ops, expected);
    assert_eq!(graph.nodes()[0].name, "Ω:conv");
    assert_eq!(graph.nodes()[1].name, "Ω:conv-1");
    assert_eq!(graph.nodes()[16].name, "Ω:rearrange-2");
    assert_eq!(graph.nodes()[15].name, "Ω:merge-4");

    let shapes: Vec<Vec<Dim>> = graph.nodes().iter().map(|n| n.outputs[0].shape().to_vec()).collect();
    assert_eq!(shapes[0], ints(&[1, 1280, 24, 34]));
    assert_eq!(shapes[2], ints(&[1, 1280, 24, 34]));
    assert_eq!(shapes[3], ints(&[1, 24, 34, 1280]));
    assert_eq!(shapes[5], ints(&[1, 12, 2, 34, 1280]));
    assert_eq!(shapes[6], ints(&[12, 2, 34, 1280]));
    assert_eq!(shapes[7], ints(&[12, 2, 17, 2, 1280]));
    assert_eq!(shapes[8], ints(&[12, 2, 17, 2560]));
    assert_eq!(shapes[9], ints(&[12, 17, 2, 2560]));
    assert_eq!(shapes[11], ints(&[1, 12, 17, 2, 2560]));
    assert_eq!(shapes[12], ints(&[1, 408, 2560]));
    assert_eq!(shapes[13], ints(&[1, 408, 2, 1280]));
    assert_eq!(shapes[14], ints(&[1, 816, 1280]));
    assert_eq!(shapes[15], ints(&[24 * 34, 1280]));
    assert_eq!(shapes[16], ints(&[24 * 34, 1280]));
    assert_eq!(graph.outputs()[0].shape(), &ints(&[24 * 34, 1280])[..]);
    assert_eq!(graph.outputs()[0].id(), graph.nodes()[16].outputs[0].id());

    assert_eq!(
        graph.nodes()[3].arg,
        Some(Arg::Dict(vec![ints_entry("perm", &[0, 2, 3, 1])]))
    );
    assert_eq!(
        graph.nodes()[5].arg,
        Some(Arg::Dict(vec![int_entry("axis", 1), ints_entry("tiles", &[12, 2])]))
    );
    assert_eq!(
        graph.nodes()[6].arg,
        Some(Arg::Dict(vec![int_entry("start", 0), int_entry("len", 2)]))
    );
    assert_eq!(graph.outputs().len(), 1);
    assert_eq!(graph.externals_in()[0].name, "Ω.patch_embd");
    assert_eq!(graph.externals_in()[1].name, "Ω.patch_embd1");
    assert_eq!(graph.externals_in()[1].tensor.shape(), &ints(&[1280, 3, 14, 14])[..]);
}

#[test]
fn patch_embedding_wants_one_image_of_its_channels() {
    let nn = PatchEmbd { dt: Dtype::F16, shape: [8, 3, 2, 2], patch_embd: (), patch_embd1: () };
    let bias = TensorMeta::new(Dtype::F16, ints(&[8]));
    let image = |extents: &[usize]| vec![TensorMeta::new(Dtype::F16, ints(extents)), bias.clone()];
    assert!(nn.admits(&image(&[1, 3, 4, 4])));
    assert!(!nn.admits(&image(&[2, 3, 4, 4])));
    assert!(!nn.admits(&image(&[1, 4, 4, 4])));
    assert!(!nn.admits(&image(&[1, 3, 4])));
    assert!(!nn.admits(&vec![TensorMeta::new(Dtype::F16, ints(&[1, 3, 4, 4]))]));
    let oblong = PatchEmbd { dt: Dtype::F16, shape: [8, 3, 2, 4], patch_embd: (), patch_embd1: () };
    assert!(!oblong.admits(&image(&[1, 3, 4, 4])));
}

#[test]
fn patch_embedding_stops_where_a_tile_does_not_fit() {
    // three rows of patches cannot be folded two by two
    let nn = PatchEmbd { dt: Dtype::F16, shape: [8, 3, 2, 2], patch_embd: (), patch_embd1: () };
    let inputs = vec![
        TensorMeta::new(Dtype::F16, ints(&[1, 3, 6, 4])),
        TensorMeta::new(Dtype::F16, ints(&[8])),
    ];
    assert!(nn.admits(&inputs));
    let err = builder().build(nn, inputs).unwrap_err();
    assert_eq!(err.name, "Ω:tile");
    assert_eq!(err.err, OpError::ShapeMismatch);
}

fn conv_weights(bias: bool) -> WeightBiasData<&'static str> {
    WeightBiasData { weight: "w", bias: if bias { Some("b") } else { None } }
}

#[test]
fn conv_layer_with_its_own_bias() {
    let nn = Bound {
        nn: ConvLayer { dt_w: Dtype::F32, bias: true },
        args: conv::Args { d: 16, d_patch: 14 },
        data: conv_weights(true),
    };
    let inputs = vec![TensorMeta::new(Dtype::F32, ints(&[1, 3, 28, 42]))];
    assert!(nn.admits(&inputs));
    let graph = builder().build(nn, inputs).unwrap();
    assert_eq!(graph.nodes().len(), 1);
    assert_eq!(graph.nodes()[0].name, "Ω:conv");
    assert_eq!(
        graph.nodes()[0].arg,
        Some(Arg::Dict(vec![
            ints_entry("strides", &[14, 14]),
            ints_entry("dilations", &[1, 1]),
            ints_entry("pads", &[0, 0, 0, 0]),
        ]))
    );
    assert_eq!(graph.nodes()[0].inputs[1].shape(), &ints(&[16, 3, 14, 14])[..]);
    assert_eq!(graph.nodes()[0].inputs[2].shape(), &ints(&[16])[..]);
    assert_eq!(graph.outputs()[0].shape(), &ints(&[1, 16, 2, 3])[..]);
    assert_eq!(graph.externals_in().len(), 2);
}

#[test]
fn conv_layer_without_a_bias_takes_one() {
    let nn = Bound {
        nn: ConvLayer { dt_w: Dtype::F32, bias: false },
        args: conv::Args { d: 16, d_patch: 14 },
        data: conv_weights(false),
    };
    let image = TensorMeta::new(Dtype::F32, ints(&[1, 3, 28, 42]));
    assert!(!nn.admits(&vec![image.clone()]));
    let inputs = vec![image, TensorMeta::new(Dtype::F32, ints(&[16]))];
    assert!(nn.admits(&inputs));
    let graph = builder().build(nn, inputs).unwrap();
    assert_eq!(graph.externals_in().len(), 1);
    assert_eq!(graph.nodes()[0].inputs[2].id(), graph.inputs()[1].id());
    let lacking = Bound {
        nn: ConvLayer { dt_w: Dtype::F32, bias: true },
        args: conv::Args { d: 16, d_patch: 14 },
        data: conv_weights(false),
    };
    assert!(!lacking.admits(&vec![TensorMeta::new(Dtype::F32, ints(&[1, 3, 28, 42]))]));
}

#[test]
fn vision_patch_embedding() {
    let nn = Bound {
        nn: vit::PatchEmbd { dt_w: Dtype::F16, bias: true },
        args: vit::Args { m: 1280, d_patch: 14 },
        data: vit::Data { patch_embd: conv_weights(true), patch_embd1: conv_weights(true) },
    };
    let inputs = vec![TensorMeta::new(Dtype::F16, ints(&[1, 3, 336, 476]))];
    assert!(nn.admits(&inputs));
    let graph = builder().build(nn, inputs).unwrap();
    let names: Vec<&str> = graph.nodes().iter().map(|n| n.name.as_str()).collect();
    assert_eq!(names[..4], ["Ω.conv:conv", "Ω.conv1:conv", "Ω:add", "Ω:transpose"]);
    assert_eq!(graph.nodes().len(), 17);
    assert_eq!(graph.outputs()[0].shape(), &ints(&[24 * 34, 1280])[..]);
    let loaded: Vec<&str> = graph.externals_in().iter().map(|e| e.name.as_str()).collect();
    assert_eq!(loaded, ["Ω.conv.weight", "Ω.conv.bias", "Ω.conv1.weight", "Ω.conv1.bias"]);
    assert_eq!(vit::Sub::Conv.name(), "conv");
    assert_eq!(vit::Sub::Conv1.name(), "conv1");
}

#[test]
fn vision_patch_embedding_refuses_a_batch() {
    let nn = Bound {
        nn: vit::PatchEmbd { dt_w: Dtype::F16, bias: true },
        args: vit::Args { m: 8, d_patch: 2 },
        data: vit::Data { patch_embd: conv_weights(true), patch_embd1: conv_weights(true) },
    };
    let inputs = vec![TensorMeta::new(Dtype::F16, ints(&[2, 3, 4, 4]))];
    assert!(nn.admits(&inputs));
    let err = builder().build(nn, inputs).unwrap_err();
    assert_eq!((err.name.as_str(), err.err), ("Ω", OpError::ShapeError));
    let empty = Bound {
        nn: vit::PatchEmbd { dt_w: Dtype::F16, bias: true },
        args: vit::Args { m: 8, d_patch: 0 },
        data: vit::Data { patch_embd: conv_weights(true), patch_embd1: conv_weights(true) },
    };
    assert!(!empty.admits(&vec![TensorMeta::new(Dtype::F16, ints(&[1, 3, 4, 4]))]));
}

#[test]
fn merger_normalises_then_projects() {
    let nn = Bound {
        nn: Merger {
            post_norm: Normalization { ty: Type::LayerNorm, dt_w: Dtype::F32 },
            mlp: Mlp { act: Activation::GeLU, dt_w: Dtype::F16, di: 64, up_bias: true, down_bias: true },
        },
        args: merger::Args {},
        data: merger::Data {
            post_norm: WeightBiasData { weight: "ln.w", bias: Some("ln.b") },
            mlp: mlp::Data {
                up: WeightBiasData { weight: "mm.0.w", bias: Some("mm.0.b") },
                down: WeightBiasData { weight: "mm.2.w", bias: Some("mm.2.b") },
            },
        },
    };
    let inputs = vec![TensorMeta::new(Dtype::F16, ints(&[6, 32]))];
    assert!(nn.admits(&inputs));
    let graph = builder().build(nn, inputs).unwrap();
    let names: Vec<&str> = graph.nodes().iter().map(|n| n.name.as_str()).collect();
    assert_eq!(
        names,
        ["Ω.post-norm:layernorm", "Ω.mlp.up:linear", "Ω.mlp:gelu", "Ω.mlp.down:linear"]
    );
    assert_eq!(graph.nodes()[0].arg, Some(Arg::Float(LAYER_NORM_EPSILON)));
    assert_eq!(f64::from_bits(LAYER_NORM_EPSILON), 1e-5);
    assert_eq!(graph.nodes()[1].outputs[0].shape(), &ints(&[6, 64])[..]);
    assert_eq!(graph.outputs()[0].shape(), &ints(&[6, 32])[..]);
    assert_eq!(merger::Sub::PostNorm.name(), "post-norm");
    assert_eq!(merger::Sub::Mlp.name(), "mlp");
    let items: Vec<&str> = graph.externals_in().iter().map(|e| e.item).collect();
    assert_eq!(items, ["ln.w", "ln.b", "mm.0.w", "mm.0.b", "mm.2.w", "mm.2.b"]);
}

#[test]
fn merger_without_the_bias_of_its_norm_is_not_admitted() {
    let nn = Bound {
        nn: Merger {
            post_norm: Normalization { ty: Type::LayerNorm, dt_w: Dtype::F32 },
            mlp: Mlp { act: Activation::GeLU, dt_w: Dtype::F16, di: 64, up_bias: false, down_bias: false },
        },
        args: merger::Args {},
        data: merger::Data {
            post_norm: WeightBiasData { weight: (), bias: None },
            mlp: mlp::Data {
                up: WeightBiasData { weight: (), bias: None },
                down: WeightBiasData { weight: (), bias: None },
            },
        },
    };
    assert!(!nn.admits(&vec![TensorMeta::new(Dtype::F16, ints(&[6, 32]))]));
}

fn named(weight: String, bias: String) -> WeightBiasData<String> {
    WeightBiasData { weight, bias: Some(bias) }
}

#[test]
fn test_qw2vl_mmproj_test() {
    let d_patch = 14;
    let d_proj = 1536;
    let image = [1, 3, 336, 476];
    let [_, _, h, w] = image;
    let h_patches = h / d_patch;
    let w_patches = w / d_patch;
    let patches = h_patches * w_patches;
    let (nh, d, di) = (16, 1280, 5120);
    let nctx = 34;
    let dh = 80;
    let builder = builder();

    // patch_embd
    let nn = Bound {
        nn: vit::PatchEmbd { dt_w: Dtype::F16, bias: false },
        args: vit::Args { m: d, d_patch },
        data: vit::Data {
            patch_embd: WeightBiasData { weight: "v.patch_embd.weight".to_string(), bias: None },
            patch_embd1: WeightBiasData { weight: "v.patch_embd.weight.1".to_string(), bias: None },
        },
    };
    let inputs = vec![
        TensorMeta::new(Dtype::F16, ints(&image)),
        TensorMeta::new(Dtype::F16, ints(&[d])),
    ];
    assert!(nn.admits(&inputs));
    let graph = builder.build(nn, inputs).unwrap();
    assert_eq!(graph.outputs()[0].shape(), &ints(&[patches, d])[..]);
    let items: Vec<&str> = graph.externals_in().iter().map(|e| e.item.as_str()).collect();
    assert_eq!(items, ["v.patch_embd.weight", "v.patch_embd.weight.1"]);

    // qw2vl-vit
    for i in 0..2 {
        let nn = Bound {
            nn: TransformerBlk::qw2vl_vit(Dtype::F32, Dtype::F16, nh, nh, dh, di),
            args: transformer_blk::Args { n_sin: nctx, n_cos: nctx },
            data: transformer_blk::Data {
                pre_norm: named(format!("v.blk.{i}.ln1.weight"), format!("v.blk.{i}.ln1.bias")),
                self_attn: self_attn::Data {
                    qkv: named(
                        format!("v.blk.{i}.attn_qkv.weight"),
                        format!("v.blk.{i}.attn_qkv.bias"),
                    ),
                    rope: Some(("sin".to_string(), "cos".to_string())),
                    output: named(
                        format!("v.blk.{i}.attn_out.weight"),
                        format!("v.blk.{i}.attn_out.bias"),
                    ),
                },
                post_norm: named(format!("v.blk.{i}.ln2.weight"), format!("v.blk.{i}.ln2.bias")),
                mlp: mlp::Data {
                    up: named(format!("v.blk.{i}.ffn_up.weight"), format!("v.blk.{i}.ffn_up.bias")),
                    down: named(
                        format!("v.blk.{i}.ffn_down.weight"),
                        format!("v.blk.{i}.ffn_down.bias"),
                    ),
                },
            },
        };
        let inputs = vec![
            TensorMeta::new(Dtype::F16, ints(&[nctx, d])),
            TensorMeta::new(Dtype::U32, ints(&[nctx])),
        ];
        assert!(nn.admits(&inputs));
        let graph = builder.build(nn, inputs).unwrap();
        assert_eq!(graph.outputs()[0].shape(), &ints(&[nctx, d])[..]);
        let attention = graph.nodes().iter().find(|n| n.op == "attention").unwrap();
        assert_eq!(attention.arg, None);
        assert_eq!(attention.inputs[0].shape(), &ints(&[nctx, nh, dh])[..]);
        assert_eq!(graph.externals_in()[2].item, format!("v.blk.{i}.attn_qkv.weight"));
        assert_eq!(graph.externals_in()[4].tensor.shape(), &ints(&[nctx, dh / 2])[..]);
        assert_eq!(graph.externals_in().len(), 14);
    }

    // merger
    let nn = Bound {
        nn: Merger {
            post_norm: Normalization { ty: Type::LayerNorm, dt_w: Dtype::F32 },
            mlp: Mlp { act: Activation::GeLU, dt_w: Dtype::F16, di: 4 * d, up_bias: true, down_bias: true },
        },
        args: merger::Args {},
        data: merger::Data {
            post_norm: named("v.post_ln.weight".to_string(), "v.post_ln.bias".to_string()),
            mlp: mlp::Data {
                up: named("mm.0.weight".to_string(), "mm.0.bias".to_string()),
                down: named("mm.2.weight".to_string(), "mm.2.bias".to_string()),
            },
        },
    };
    let inputs = vec![TensorMeta::new(Dtype::F16, ints(&[patches / 4, 4 * d]))];
    assert!(nn.admits(&inputs));
    let graph = builder.build(nn, inputs).unwrap();
    assert_eq!(graph.outputs()[0].shape(), &ints(&[patches / 4, 4 * d])[..]);
    assert!(d_proj < 4 * d);
}
