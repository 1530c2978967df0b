use nn::arg::Arg;
use nn::ctx::nn_ctx::NameDecorator;
use nn::ctx::{GraphBuilder, OpLib};
use nn::dim::Dim;
use nn::dtype::Dtype;
use nn::graph::{NNGraph, Producer};
use nn::nn::compose::{Call, Chain, Save};
use nn::nn::embedding::{Embedding, Table};
use nn::nn::normalization::{Normalization, Type};
use nn::nn::{Bound, NNError, NuralNetwork, WeightBiasData};
use nn::op::{Op, OpError, Operator};
use nn::tensor::TensorMeta;

fn ints(extents: &[usize]) -> Vec<Dim> {
    extents.iter().map(|&n| Dim::Int(n)).collect()
}

fn meta(dt: Dtype, extents: &[usize]) -> TensorMeta {
    TensorMeta::new(dt, ints(extents))
}

fn embed_then_norm() -> Chain<Embedding<&'static str>, Bound<Normalization, (), WeightBiasData<&'static str>>> {
    Chain {
        first: (
            "embed".to_string(),
            Embedding {
                dt: Dtype::F16,
                d: 128,
                wte: Table { row: 32000, weight: "wte" },
                wpe: None,
                img_info: None,
            },
        ),
        second: (
            "norm".to_string(),
            Bound {
                nn: Normalization {
                    ty: Type::RmsNorm { epsilon: 1e-5f64.to_bits() },
                    dt_w: Dtype::F32,
                },
                args: (),
                data: WeightBiasData { weight: "norm", bias: None },
            },
        ),
    }
}

fn two_op_graph() -> (GraphBuilder, NNGraph<&'static str>) {
    let mut builder = GraphBuilder::new();
    builder.register_op("embedding", Op::Embedding);
    builder.register_op("rmsnorm", Op::RmsNorm);
    let nn = embed_then_norm();
    let inputs = vec![meta(Dtype::U32, &[7])];
    assert!(nn.admits(&inputs));
    let graph = builder.build(nn, inputs).unwrap();
    (builder, graph)
}

#[test]
fn two_op_graph_of_embedding_and_rmsnorm() {
    let (_, graph) = two_op_graph();
    assert_eq!(graph.nodes().len(), 2);
    assert_eq!(graph.nodes()[0].name, "Ω.embed:embedding");
    assert_eq!(graph.nodes()[0].op, "embedding");
    assert_eq!(graph.nodes()[0].arg, None);
    assert_eq!(graph.nodes()[1].name, "Ω.norm:rmsnorm");
    assert_eq!(graph.nodes()[1].op, "rmsnorm");
    assert_eq!(graph.nodes()[1].arg, Some(Arg::Float(1e-5f64.to_bits())));
    assert_eq!(graph.outputs().len(), 1);
    assert_eq!(graph.outputs()[0].shape(), &ints(&[7, 128])[..]);
    assert_eq!(graph.outputs()[0].dt(), Dtype::F16);
    let wte = graph.externals_in().iter().find(|e| e.name == "Ω.embed.wte").unwrap();
    assert_eq!(wte.tensor.shape(), &ints(&[32000, 128])[..]);
    assert_eq!(wte.tensor.dt(), Dtype::F16);
    assert_eq!(wte.item, "wte");
    assert_eq!(graph.externals_in().len(), 2);
    assert_eq!(graph.externals_in()[1].name, "Ω.norm.weight");
    assert_eq!(graph.externals_in()[1].tensor.shape(), &ints(&[128])[..]);
    assert!(graph.externals_out().is_empty());
    assert_eq!(graph.inputs().len(), 1);
    assert_eq!(graph.inputs()[0].shape(), &ints(&[7])[..]);
}

#[test]
fn handles_are_fresh_and_topologically_ordered() {
    let (_, graph) = two_op_graph();
    for (j, node) in graph.nodes().iter().enumerate() {
        for input in &node.inputs {
            let slot = &graph.slots()[input.id()];
            assert_eq!(&slot.meta, input.meta());
            match slot.from {
                Producer::Node(p, k) => {
                    assert!(p < j);
                    assert_eq!(graph.nodes()[p].outputs[k].id(), input.id());
                }
                Producer::External(e) => assert_eq!(graph.externals_in()[e].tensor.id(), input.id()),
                Producer::Input(k) => assert_eq!(graph.inputs()[k].id(), input.id()),
            }
            for output in &node.outputs {
                assert!(output.id() > input.id());
            }
        }
        for (k, output) in node.outputs.iter().enumerate() {
            assert_eq!(graph.slots()[output.id()].from, Producer::Node(j, k));
            assert_eq!(&graph.slots()[output.id()].meta, output.meta());
        }
    }
    assert_eq!(graph.slots()[graph.inputs()[0].id()].from, Producer::Input(0));
    assert_eq!(graph.slots()[graph.externals_in()[0].tensor.id()].from, Producer::External(0));
    assert_eq!(graph.slots().len(), 5);
}

#[test]
fn node_names_are_unique() {
    let (_, graph) = two_op_graph();
    for (i, a) in graph.nodes().iter().enumerate() {
        for b in &graph.nodes()[i + 1..] {
            assert_ne!(a.name, b.name);
        }
    }
}

#[test]
fn inference_can_be_run_again_on_every_node() {
    let (builder, graph) = two_op_graph();
    let lib: &OpLib = builder.op_lib();
    for node in graph.nodes() {
        let op = lib.get(&node.op).unwrap();
        let inputs: Vec<TensorMeta> = node.inputs.iter().map(|t| t.meta().clone()).collect();
        let outputs = op.infer(&inputs, node.arg.as_ref()).unwrap();
        let recorded: Vec<TensorMeta> = node.outputs.iter().map(|t| t.meta().clone()).collect();
        assert_eq!(outputs, recorded);
    }
}

#[test]
fn embedding_with_positions_carries_image_info() {
    let mut builder = GraphBuilder::new();
    builder.register_op("embedding", Op::Embedding);
    let nn = Embedding {
        dt: Dtype::F32,
        d: 64,
        wte: Table { row: 1000, weight: 1u8 },
        wpe: Some(Table { row: 196, weight: 2u8 }),
        img_info: Some([1, 14, 14]),
    };
    let inputs = vec![meta(Dtype::U32, &[5]), meta(Dtype::U32, &[5])];
    assert!(nn.admits(&inputs));
    let graph = builder.build(nn, inputs).unwrap();
    assert_eq!(graph.nodes().len(), 1);
    assert_eq!(graph.nodes()[0].name, "Ω:embedding");
    assert_eq!(
        graph.nodes()[0].arg,
        Some(Arg::Arr(vec![Arg::Int(1), Arg::Int(14), Arg::Int(14)]))
    );
    assert_eq!(graph.nodes()[0].inputs.len(), 4);
    assert_eq!(graph.nodes()[0].inputs[0].shape(), &ints(&[1000, 64])[..]);
    assert_eq!(graph.nodes()[0].inputs[2].shape(), &ints(&[196, 64])[..]);
    assert_eq!(graph.outputs()[0].shape(), &ints(&[5, 64])[..]);
    assert_eq!(graph.externals_in()[0].name, "Ω.wte");
    assert_eq!(graph.externals_in()[1].name, "Ω.wpe");
    assert_eq!(graph.externals_in()[1].item, 2u8);
}

#[test]
fn embedding_wants_positions_with_a_positional_table() {
    let nn = Embedding {
        dt: Dtype::F32,
        d: 64,
        wte: Table { row: 1000, weight: () },
        wpe: Some(Table { row: 196, weight: () }),
        img_info: None,
    };
    assert!(!NuralNetwork::<()>::admits(&nn, &vec![meta(Dtype::U32, &[5])]));
}

fn call(name: &str, op: &str, arg: Option<Arg>) -> Call {
    Call { name: name.to_string(), op: op.to_string(), arg }
}

#[test]
fn rearrange_refuses_an_argument() {
    let mut builder = GraphBuilder::new();
    builder.register_op("rearrange", Op::Rearrange);
    let err = builder
        .build::<(), _>(call("", "rearrange", Some(Arg::Int(1))), vec![meta(Dtype::F32, &[2, 3])])
        .unwrap_err();
    assert_eq!(err, NNError { name: "Ω:rearrange".to_string(), err: OpError::ArgError });
}

#[test]
fn rearrange_in_a_sub_scope_refuses_an_argument() {
    let mut builder = GraphBuilder::new();
    builder.register_op("rearrange", Op::Rearrange);
    let nn = Chain {
        first: ("copy".to_string(), call("", "rearrange", None)),
        second: ("copy".to_string(), call("again", "rearrange", Some(Arg::Null))),
    };
    let err = builder.build::<(), _>(nn, vec![meta(Dtype::F32, &[2, 3])]).unwrap_err();
    assert_eq!(err, NNError { name: "Ω.copy-1:again".to_string(), err: OpError::ArgError });
}

#[test]
fn an_operator_that_is_not_registered_is_unknown() {
    let builder = GraphBuilder::new();
    let err = builder
        .build::<(), _>(call("first", "rearrange", None), vec![meta(Dtype::F32, &[2])])
        .unwrap_err();
    assert_eq!(err, NNError { name: "Ω:first".to_string(), err: OpError::UnknownOp });
}

#[test]
fn repeated_sub_scopes_and_calls_are_numbered() {
    let mut builder = GraphBuilder::new();
    builder.register_op("gelu", Op::Gelu);
    let twice = Chain {
        first: ("act".to_string(), call("", "gelu", None)),
        second: ("act".to_string(), call("", "gelu", None)),
    };
    let nn = Chain { first: ("act".to_string(), twice), second: ("act".to_string(), call("x", "gelu", None)) };
    let graph = builder.build::<(), _>(nn, vec![meta(Dtype::F32, &[4])]).unwrap();
    let names: Vec<&str> = graph.nodes().iter().map(|n| n.name.as_str()).collect();
    assert_eq!(names, ["Ω.act.act:gelu", "Ω.act.act-1:gelu", "Ω.act-1:x"]);
    assert_eq!(graph.outputs()[0].id(), 3);
}

#[test]
fn decorate_numbers_the_occurrences_of_a_name() {
    let mut names = NameDecorator::new();
    let mut seen = Vec::new();
    for _ in 0..12 {
        seen.push(names.decorate("linear".to_string()));
    }
    assert_eq!(
        seen,
        [
            "linear", "linear-1", "linear-2", "linear-3", "linear-4", "linear-5", "linear-6",
            "linear-7", "linear-8", "linear-9", "linear-10", "linear-11"
        ]
    );
    assert_eq!(names.decorate("add".to_string()), "add");
    assert_eq!(names.decorate("linear".to_string()), "linear-12");
    let mut other = NameDecorator::new();
    assert_eq!(other.decorate("linear".to_string()), "linear");
    assert_eq!(other.decorate("".to_string()), "");
    assert_eq!(other.decorate("".to_string()), "-1");
}

#[test]
fn decorated_names_can_collide_with_plain_ones() {
    let mut names = NameDecorator::new();
    assert_eq!(names.decorate("a".to_string()), "a");
    assert_eq!(names.decorate("a".to_string()), "a-1");
    assert_eq!(names.decorate("a-1".to_string()), "a-1");
}

#[test]
fn library_lookup() {
    let mut builder = GraphBuilder::new();
    assert_eq!(builder.op_lib().get("tile"), None);
    builder.register_op("tile", Op::Tile);
    builder.register_op("cut", Op::Split);
    assert_eq!(builder.op_lib().get("tile"), Some(Op::Tile));
    assert_eq!(builder.op_lib().get("cut"), Some(Op::Split));
    assert_eq!(builder.op_lib().get("split"), None);
}

#[test]
fn a_result_can_be_kept_outside() {
    let mut builder = GraphBuilder::new();
    builder.register_op("gelu", Op::Gelu);
    let nn = Chain {
        first: ("act".to_string(), call("", "gelu", None)),
        second: ("keep".to_string(), Save { name: "result".to_string(), item: 42u8 }),
    };
    let graph = builder.build(nn, vec![meta(Dtype::F32, &[4])]).unwrap();
    assert_eq!(graph.externals_out().len(), 1);
    assert_eq!(graph.externals_out()[0].name, "Ω.keep.result");
    assert_eq!(graph.externals_out()[0].item, 42);
    assert_eq!(graph.externals_out()[0].tensor, graph.nodes()[0].outputs[0]);
    assert_eq!(graph.outputs(), graph.nodes()[0].outputs);
    assert!(graph.owns(&graph.outputs()[0]));
    assert!(graph.externals_in().is_empty());
    let nothing = Save { name: "result".to_string(), item: () };
    assert!(!nothing.admits(&vec![]));
}

#[test]
fn the_second_of_a_chain_must_admit_what_the_first_returns() {
    let mut builder = GraphBuilder::new();
    builder.register_op("split", Op::Split);
    let cut = Arg::Dict(vec![
        ("axis".to_string(), Arg::Int(0)),
        ("parts".to_string(), Arg::Arr(vec![])),
    ]);
    let nn = Chain {
        first: ("cut".to_string(), call("", "split", Some(cut))),
        second: ("keep".to_string(), Save { name: "result".to_string(), item: () }),
    };
    let err = builder.build(nn, vec![meta(Dtype::F32, &[0])]).unwrap_err();
    assert_eq!(err, NNError { name: "Ω".to_string(), err: OpError::ShapeError });
}
