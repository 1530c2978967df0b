use nn::arg::Arg;
use nn::dim::{make_eq, Dim};
use nn::dtype::Dtype;
use nn::op::activation::{Gelu, Softmax, Swiglu};
use nn::op::attention::Attention;
use nn::op::conv::{conv_len, Conv};
use nn::op::elementwise::{Add, Mul};
use nn::op::embedding::Embedding;
use nn::op::layout::{Merge, Split, Tile, Transpose};
use nn::op::linear::{Linear, Matmul};
use nn::op::mrope::Mrope;
use nn::op::norm::{LayerNorm, RmsNorm};
use nn::op::rearrange::Rearrange;
use nn::op::rope::Rope;
use nn::op::sizes::{product_of, sum_of};
use nn::op::{Op, OpError, Operator};
use nn::tensor::TensorMeta;

fn sym(name: &str) -> Dim {
    Dim::Sym(name.to_string())
}

fn ints(extents: &[usize]) -> Vec<Dim> {
    extents.iter().map(|&n| Dim::Int(n)).collect()
}

fn f32s(extents: &[usize]) -> TensorMeta {
    TensorMeta::new(Dtype::F32, ints(extents))
}

fn f16s(extents: &[usize]) -> TensorMeta {
    TensorMeta::new(Dtype::F16, ints(extents))
}

fn int_list(vals: &[i64]) -> Arg {
    Arg::Arr(vals.iter().map(|&v| Arg::Int(v)).collect())
}

fn dict(entries: Vec<(&str, Arg)>) -> Arg {
    Arg::Dict(entries.into_iter().map(|(k, v)| (k.to_string(), v)).collect())
}

fn epsilon() -> Arg {
    Arg::Float(1e-6f64.to_bits())
}

#[test]
fn dims_unify() {
    assert_eq!(Dim::Int(3).unify(&Dim::Int(3)), Some(Dim::Int(3)));
    assert_eq!(Dim::Int(3).unify(&Dim::Int(4)), None);
    assert_eq!(Dim::Int(3).unify(&sym("n")), Some(Dim::Int(3)));
    assert_eq!(sym("n").unify(&Dim::Int(3)), Some(Dim::Int(3)));
    assert_eq!(sym("n").unify(&sym("n")), Some(sym("n")));
    assert_eq!(sym("n").unify(&sym("m")), None);
    assert_eq!(make_eq(&[sym("n"), Dim::Int(3), sym("m"), Dim::Int(3)]), Some(Dim::Int(3)));
    assert_eq!(make_eq(&[sym("n"), Dim::Int(3), Dim::Int(4)]), None);
    assert_eq!(make_eq(&[sym("n"), sym("m"), Dim::Int(3)]), None);
    assert_eq!(make_eq(&[sym("n")]), Some(sym("n")));
    assert_eq!(make_eq(&[]), None);
    assert_eq!(Dim::Int(7).value(), Some(7));
    assert_eq!(sym("n").value(), None);
    assert!(sym("n").same(&sym("n")) && !sym("n").same(&Dim::Int(0)));
}

#[test]
fn arg_access() {
    let arg = dict(vec![("axis", Arg::Int(2)), ("tiles", int_list(&[3, 4])), ("axis", Arg::Int(9))]);
    assert_eq!(arg.get("axis"), Some(&Arg::Int(2)));
    assert_eq!(arg.get("tiles").unwrap().as_ints(), Some(vec![3, 4]));
    assert_eq!(arg.get("perm"), None);
    assert!(arg.dict_within(&["tiles", "axis"]));
    assert!(!arg.dict_within(&["axis"]));
    assert!(!Arg::Int(1).dict_within(&["axis"]));
    assert_eq!(Arg::Int(5).as_int(), Some(5));
    assert_eq!(Arg::Bool(true).as_int(), None);
    assert_eq!(Arg::Arr(vec![Arg::Int(1), Arg::Null]).as_ints(), None);
    assert_eq!(Arg::Str("x".to_string()).get("x"), None);
    assert_eq!(Arg::ints(&[1, 2]), int_list(&[1, 2]));
    assert_eq!(Arg::dict1("k", Arg::Null), dict(vec![("k", Arg::Null)]));
}

#[test]
fn rearrange_keeps_the_meta() {
    assert_eq!(Rearrange.infer(&[f16s(&[2, 3])], None), Ok(vec![f16s(&[2, 3])]));
    assert_eq!(Rearrange.infer(&[f16s(&[2, 3])], Some(&Arg::Null)), Err(OpError::ArgError));
    assert_eq!(Rearrange.infer(&[], None), Err(OpError::ShapeError));
    assert_eq!(Rearrange.infer(&[f16s(&[2]), f16s(&[2])], None), Err(OpError::ShapeError));
}

#[test]
fn mrope_rules() {
    let x = f16s(&[5, 4, 8]);
    let table = f16s(&[32, 4]);
    let pos = |axes: usize| TensorMeta::new(Dtype::U32, ints(&[5, axes]));
    let sections = int_list(&[2, 1, 1]);
    assert_eq!(
        Mrope.infer(&[x.clone(), pos(2), table.clone(), table.clone()], None),
        Ok(vec![f16s(&[5, 4, 8])])
    );
    assert_eq!(
        Mrope.infer(&[x.clone(), pos(3), table.clone(), table.clone()], Some(&sections)),
        Ok(vec![f16s(&[5, 4, 8])])
    );
    assert_eq!(
        Mrope.infer(&[x.clone(), pos(2), table.clone(), table.clone()], Some(&sections)),
        Err(OpError::ArgError)
    );
    assert_eq!(
        Mrope.infer(&[x.clone(), pos(3), table.clone(), table.clone()], None),
        Err(OpError::ArgError)
    );
    assert_eq!(
        Mrope.infer(&[x.clone(), pos(3), table.clone(), table.clone()], Some(&Arg::Int(3))),
        Err(OpError::ArgError)
    );
    assert_eq!(
        Mrope.infer(&[x.clone(), pos(4), table.clone(), table.clone()], None),
        Err(OpError::ShapeError)
    );
    assert_eq!(
        Mrope.infer(&[x.clone(), pos(2), table.clone(), f16s(&[16, 4])], None),
        Err(OpError::ShapeMismatch)
    );
    assert_eq!(
        Mrope.infer(&[x.clone(), pos(2), table.clone(), f16s(&[32, 2])], None),
        Err(OpError::ShapeMismatch)
    );
    assert_eq!(
        Mrope.infer(&[f16s(&[6, 4, 8]), pos(2), table.clone(), table.clone()], None),
        Err(OpError::ShapeMismatch)
    );
    assert_eq!(Mrope.infer(&[x.clone(), pos(2), table.clone()], None), Err(OpError::ShapeError));
    let named = TensorMeta::new(Dtype::F16, vec![sym("n"), Dim::Int(4), Dim::Int(8)]);
    assert_eq!(
        Mrope.infer(&[named, pos(2), table.clone(), table], None),
        Ok(vec![f16s(&[5, 4, 8])])
    );
}

#[test]
fn embedding_rules() {
    let table = f16s(&[100, 16]);
    let tokens = TensorMeta::new(Dtype::U32, ints(&[7]));
    assert_eq!(Embedding.infer(&[table.clone(), tokens.clone()], None), Ok(vec![f16s(&[7, 16])]));
    let positions = f16s(&[50, 16]);
    let info = int_list(&[1, 14, 14]);
    assert_eq!(
        Embedding.infer(&[table.clone(), tokens.clone(), positions.clone(), tokens.clone()], Some(&info)),
        Ok(vec![f16s(&[7, 16])])
    );
    assert_eq!(
        Embedding.infer(&[table.clone(), tokens.clone()], Some(&int_list(&[1, 14]))),
        Err(OpError::ArgError)
    );
    assert_eq!(
        Embedding.infer(&[table.clone(), tokens.clone()], Some(&Arg::Int(1))),
        Err(OpError::ArgError)
    );
    assert_eq!(Embedding.infer(&[table.clone()], None), Err(OpError::ShapeError));
    assert_eq!(Embedding.infer(&[tokens.clone(), tokens.clone()], None), Err(OpError::ShapeError));
    assert_eq!(
        Embedding.infer(&[table.clone(), tokens.clone(), f32s(&[50, 16]), tokens.clone()], None),
        Err(OpError::DTypeMismatch)
    );
    assert_eq!(
        Embedding.infer(&[table.clone(), tokens.clone(), f16s(&[50, 8]), tokens.clone()], None),
        Err(OpError::ShapeMismatch)
    );
    assert_eq!(
        Embedding.infer(
            &[table, tokens, positions, TensorMeta::new(Dtype::U32, ints(&[8]))],
            None
        ),
        Err(OpError::ShapeMismatch)
    );
}

#[test]
fn norm_rules() {
    let x = f16s(&[2, 7, 16]);
    let w = f32s(&[16]);
    assert_eq!(RmsNorm.infer(&[x.clone(), w.clone()], Some(&epsilon())), Ok(vec![f16s(&[2, 7, 16])]));
    assert_eq!(RmsNorm.infer(&[x.clone(), w.clone()], None), Err(OpError::ArgError));
    assert_eq!(RmsNorm.infer(&[x.clone(), w.clone()], Some(&Arg::Int(0))), Err(OpError::ArgError));
    assert_eq!(RmsNorm.infer(&[x.clone()], Some(&epsilon())), Err(OpError::ShapeError));
    assert_eq!(RmsNorm.infer(&[x.clone(), f32s(&[8])], Some(&epsilon())), Err(OpError::ShapeMismatch));
    assert_eq!(RmsNorm.infer(&[x.clone(), f32s(&[1, 16])], Some(&epsilon())), Err(OpError::ShapeError));
    let named = TensorMeta::new(Dtype::F16, vec![Dim::Int(7), sym("d")]);
    assert_eq!(RmsNorm.infer(&[named, w.clone()], Some(&epsilon())), Ok(vec![f16s(&[7, 16])]));
    assert_eq!(
        LayerNorm.infer(&[x.clone(), w.clone(), w.clone()], Some(&epsilon())),
        Ok(vec![f16s(&[2, 7, 16])])
    );
    assert_eq!(
        LayerNorm.infer(&[x.clone(), w.clone(), f16s(&[16])], Some(&epsilon())),
        Err(OpError::DTypeMismatch)
    );
    assert_eq!(
        LayerNorm.infer(&[x.clone(), w.clone(), f32s(&[8])], Some(&epsilon())),
        Err(OpError::ShapeMismatch)
    );
    assert_eq!(LayerNorm.infer(&[x.clone(), w.clone()], Some(&epsilon())), Ok(vec![f16s(&[2, 7, 16])]));
    assert_eq!(
        RmsNorm.infer(&[x.clone(), w.clone(), w.clone()], Some(&epsilon())),
        Ok(vec![f16s(&[2, 7, 16])])
    );
    assert_eq!(LayerNorm.infer(&[x, w.clone(), f32s(&[4, 4])], Some(&epsilon())), Err(OpError::ShapeError));
}

#[test]
fn linear_and_matmul_rules() {
    let x = f16s(&[2, 7, 16]);
    assert_eq!(Linear.infer(&[x.clone(), f16s(&[32, 16])], None), Ok(vec![f16s(&[2, 7, 32])]));
    assert_eq!(
        Linear.infer(&[x.clone(), f32s(&[32, 16]), f32s(&[32])], None),
        Ok(vec![f16s(&[2, 7, 32])])
    );
    assert_eq!(Linear.infer(&[x.clone(), f16s(&[32, 8])], None), Err(OpError::ShapeMismatch));
    assert_eq!(
        Linear.infer(&[x.clone(), f16s(&[32, 16]), f16s(&[16])], None),
        Err(OpError::ShapeMismatch)
    );
    assert_eq!(Linear.infer(&[x.clone(), f16s(&[32])], None), Err(OpError::ShapeError));
    assert_eq!(Linear.infer(&[x.clone(), f16s(&[32, 16])], Some(&Arg::Null)), Err(OpError::ArgError));
    assert_eq!(Matmul.infer(&[x.clone(), f32s(&[16, 5])], None), Ok(vec![f16s(&[2, 7, 5])]));
    assert_eq!(Matmul.infer(&[x.clone(), f32s(&[5, 16])], None), Err(OpError::ShapeMismatch));
    assert_eq!(Matmul.infer(&[f16s(&[16]), f32s(&[16, 5])], None), Err(OpError::ShapeError));
    assert_eq!(Matmul.infer(&[x.clone(), f32s(&[16, 5])], Some(&Arg::Null)), Err(OpError::ArgError));
    assert_eq!(Matmul.infer(&[x], None), Err(OpError::ShapeError));
}

#[test]
fn rope_rules() {
    let x = f16s(&[5, 4, 8]);
    let pos = TensorMeta::new(Dtype::U32, ints(&[5]));
    let table = f16s(&[32, 4]);
    assert_eq!(
        Rope.infer(&[x.clone(), pos.clone(), table.clone(), table.clone()], None),
        Ok(vec![f16s(&[5, 4, 8])])
    );
    assert_eq!(
        Rope.infer(&[x.clone(), pos.clone(), f16s(&[32, 3]), f16s(&[32, 3])], None),
        Err(OpError::ShapeMismatch)
    );
    assert_eq!(
        Rope.infer(&[f16s(&[5, 4, 7]), pos.clone(), f16s(&[32, 3]), f16s(&[32, 3])], None),
        Err(OpError::ShapeMismatch)
    );
    assert_eq!(
        Rope.infer(&[x.clone(), pos.clone(), table.clone(), f16s(&[16, 4])], None),
        Err(OpError::ShapeMismatch)
    );
    assert_eq!(
        Rope.infer(&[x.clone(), TensorMeta::new(Dtype::U32, ints(&[6])), table.clone(), table.clone()], None),
        Err(OpError::ShapeMismatch)
    );
    assert_eq!(
        Rope.infer(&[f16s(&[5, 32]), pos.clone(), table.clone(), table.clone()], None),
        Err(OpError::ShapeError)
    );
    assert_eq!(
        Rope.infer(&[x, pos, table.clone(), table], Some(&Arg::Null)),
        Err(OpError::ArgError)
    );
}

#[test]
fn attention_rules() {
    let q = f16s(&[11, 64, 128]);
    let kv = f16s(&[40, 8, 128]);
    let causal = Arg::Str("causal".to_string());
    assert_eq!(
        Attention.infer(&[q.clone(), kv.clone(), kv.clone()], Some(&causal)),
        Ok(vec![f16s(&[11, 64, 128])])
    );
    assert_eq!(Attention.infer(&[q.clone(), kv.clone(), kv.clone()], None), Ok(vec![f16s(&[11, 64, 128])]));
    let named = TensorMeta::new(Dtype::F16, vec![sym("l"), Dim::Int(8), Dim::Int(128)]);
    assert_eq!(
        Attention.infer(&[q.clone(), named.clone(), named], None),
        Ok(vec![f16s(&[11, 64, 128])])
    );
    assert_eq!(
        Attention.infer(&[q.clone(), kv.clone(), kv.clone()], Some(&Arg::Int(1))),
        Err(OpError::ArgError)
    );
    assert_eq!(
        Attention.infer(&[q.clone(), f16s(&[40, 7, 128]), f16s(&[40, 7, 128])], None),
        Err(OpError::ShapeError)
    );
    assert_eq!(
        Attention.infer(&[q.clone(), f16s(&[40, 0, 128]), f16s(&[40, 0, 128])], None),
        Err(OpError::ShapeError)
    );
    assert_eq!(
        Attention.infer(&[q.clone(), kv.clone(), f16s(&[41, 8, 128])], None),
        Err(OpError::ShapeMismatch)
    );
    assert_eq!(
        Attention.infer(&[q.clone(), f16s(&[40, 8, 64]), f16s(&[40, 8, 64])], None),
        Err(OpError::ShapeMismatch)
    );
    assert_eq!(
        Attention.infer(&[q.clone(), kv.clone(), f32s(&[40, 8, 128])], None),
        Err(OpError::DTypeMismatch)
    );
    assert_eq!(Attention.infer(&[q.clone(), kv.clone()], None), Err(OpError::ShapeError));
    assert_eq!(
        Attention.infer(&[f16s(&[11, 8192]), kv.clone(), kv], None),
        Err(OpError::ShapeError)
    );
}

#[test]
fn activation_rules() {
    let x = f16s(&[3, 8]);
    assert_eq!(Swiglu.infer(&[x.clone(), x.clone()], None), Ok(vec![f16s(&[3, 8])]));
    assert_eq!(Swiglu.infer(&[x.clone(), f16s(&[3, 4])], None), Err(OpError::ShapeMismatch));
    assert_eq!(Swiglu.infer(&[x.clone(), f16s(&[24])], None), Err(OpError::ShapeError));
    assert_eq!(Swiglu.infer(&[x.clone(), f32s(&[3, 8])], None), Err(OpError::DTypeMismatch));
    assert_eq!(Swiglu.infer(&[x.clone(), x.clone()], Some(&Arg::Null)), Err(OpError::ArgError));
    assert_eq!(Gelu.infer(&[x.clone()], None), Ok(vec![f16s(&[3, 8])]));
    assert_eq!(Gelu.infer(&[x.clone()], Some(&Arg::Null)), Err(OpError::ArgError));
    assert_eq!(Gelu.infer(&[], None), Err(OpError::ShapeError));
    assert_eq!(Softmax.infer(&[x.clone()], None), Ok(vec![f16s(&[3, 8])]));
    assert_eq!(Softmax.infer(&[x.clone()], Some(&Arg::Int(1))), Ok(vec![f16s(&[3, 8])]));
    assert_eq!(Softmax.infer(&[x.clone()], Some(&Arg::Int(2))), Err(OpError::ArgError));
    assert_eq!(Softmax.infer(&[x.clone()], Some(&Arg::Int(-1))), Err(OpError::ArgError));
    assert_eq!(Softmax.infer(&[x.clone()], Some(&Arg::Bool(true))), Err(OpError::ArgError));
    assert_eq!(Softmax.infer(&[x.clone(), x], None), Err(OpError::ShapeError));
}

#[test]
fn elementwise_rules() {
    assert_eq!(Add.infer(&[f16s(&[3, 8]), f16s(&[3, 8])], None), Ok(vec![f16s(&[3, 8])]));
    assert_eq!(Add.infer(&[f16s(&[3, 8]), f16s(&[1, 8])], None), Ok(vec![f16s(&[3, 8])]));
    assert_eq!(Mul.infer(&[f16s(&[1, 8]), f16s(&[3, 1])], None), Ok(vec![f16s(&[3, 8])]));
    let named = TensorMeta::new(Dtype::F16, vec![sym("n"), Dim::Int(1)]);
    assert_eq!(
        Mul.infer(&[named, f16s(&[1, 8])], None),
        Ok(vec![TensorMeta::new(Dtype::F16, vec![sym("n"), Dim::Int(8)])])
    );
    assert_eq!(Add.infer(&[f16s(&[3, 8]), f16s(&[2, 8])], None), Err(OpError::ShapeMismatch));
    assert_eq!(Add.infer(&[f16s(&[3, 8]), f16s(&[8])], None), Ok(vec![f16s(&[3, 8])]));
    assert_eq!(Add.infer(&[f16s(&[8]), f16s(&[2, 3, 1])], None), Ok(vec![f16s(&[2, 3, 8])]));
    assert_eq!(Add.infer(&[f16s(&[]), f16s(&[2, 3])], None), Ok(vec![f16s(&[2, 3])]));
    assert_eq!(Add.infer(&[f16s(&[3, 8]), f16s(&[3])], None), Err(OpError::ShapeMismatch));
    assert_eq!(Add.infer(&[f16s(&[3, 8]), f32s(&[3, 8])], None), Err(OpError::DTypeMismatch));
    assert_eq!(Add.infer(&[f16s(&[3, 8])], None), Err(OpError::ShapeError));
    assert_eq!(Mul.infer(&[f16s(&[3]), f16s(&[3])], Some(&Arg::Null)), Err(OpError::ArgError));
}

#[test]
fn conv_rules() {
    let x = f16s(&[1, 3, 336, 476]);
    let kernel = f16s(&[1280, 3, 14, 14]);
    let bias = f16s(&[1280]);
    assert_eq!(
        Conv.infer(&[x.clone(), kernel.clone(), bias.clone()], None),
        Ok(vec![f16s(&[1, 1280, 24, 34])])
    );
    let geometry = dict(vec![
        ("strides", int_list(&[2, 3])),
        ("dilations", int_list(&[2, 1])),
        ("pads", int_list(&[1, 2, 3, 4])),
    ]);
    // height: (10 + 1 + 3 - 2 * 2 - 1) / 2 + 1 = 5; width: (9 + 2 + 4 - 1 * 1 - 1) / 3 + 1 = 5
    assert_eq!(
        Conv.infer(&[f32s(&[4, 2, 10, 9]), f32s(&[6, 2, 3, 2]), f32s(&[6])], Some(&geometry)),
        Ok(vec![f32s(&[4, 6, 5, 5])])
    );
    assert_eq!(conv_len(10, 3, 2, 2, 1, 3), Some(5));
    assert_eq!(conv_len(9, 2, 3, 1, 2, 4), Some(5));
    assert_eq!(conv_len(2, 3, 1, 1, 0, 0), None);
    assert_eq!(conv_len(3, 3, 1, 1, 0, 0), Some(1));
    assert_eq!(conv_len(5, 0, 1, 1, 0, 0), None);
    assert_eq!(conv_len(5, 1, 0, 1, 0, 0), None);
    assert_eq!(conv_len(usize::MAX, 1, 1, 1, 1, 0), None);
    assert_eq!(conv_len(usize::MAX, 3, 1, usize::MAX, 0, 0), None);
    assert_eq!(conv_len(usize::MAX, 1, 1, usize::MAX, 0, 0), Some(usize::MAX));
    for bad in [
        dict(vec![("strides", int_list(&[2, 3])), ("dilations", int_list(&[2, 1]))]),
        dict(vec![
            ("strides", int_list(&[0, 3])),
            ("dilations", int_list(&[2, 1])),
            ("pads", int_list(&[1, 2, 3, 4])),
        ]),
        dict(vec![
            ("strides", int_list(&[2, 3])),
            ("dilations", int_list(&[2, 1])),
            ("pads", int_list(&[1, 2, 3])),
        ]),
        dict(vec![
            ("strides", int_list(&[2, 3])),
            ("dilations", int_list(&[2, 1])),
            ("pads", int_list(&[1, 2, 3, -4])),
        ]),
        dict(vec![
            ("strides", int_list(&[2, 3])),
            ("dilations", int_list(&[2, 1])),
            ("pads", int_list(&[1, 2, 3, 4])),
            ("groups", Arg::Int(1)),
        ]),
        Arg::Int(14),
    ] {
        assert_eq!(
            Conv.infer(&[x.clone(), kernel.clone(), bias.clone()], Some(&bad)),
            Err(OpError::ArgError)
        );
    }
    assert_eq!(
        Conv.infer(&[x.clone(), f16s(&[1280, 4, 14, 14]), bias.clone()], None),
        Err(OpError::ShapeMismatch)
    );
    assert_eq!(
        Conv.infer(&[x.clone(), kernel.clone(), f16s(&[1281])], None),
        Err(OpError::ShapeMismatch)
    );
    assert_eq!(
        Conv.infer(&[x.clone(), kernel.clone(), f32s(&[1280])], None),
        Err(OpError::DTypeMismatch)
    );
    assert_eq!(
        Conv.infer(&[f16s(&[1, 3, 10, 476]), kernel.clone(), bias.clone()], None),
        Err(OpError::ShapeError)
    );
    assert_eq!(Conv.infer(&[x.clone(), kernel.clone()], None), Err(OpError::ShapeError));
    let named = TensorMeta::new(
        Dtype::F16,
        vec![Dim::Int(1), Dim::Int(3), sym("h"), Dim::Int(476)],
    );
    assert_eq!(Conv.infer(&[named, kernel, bias], None), Err(OpError::ShapeError));
}

#[test]
fn transpose_rules() {
    let x = f16s(&[2, 3, 5, 7]);
    let perm = |p: &[i64]| dict(vec![("perm", int_list(p))]);
    assert_eq!(Transpose.infer(&[x.clone()], Some(&perm(&[0, 2, 3, 1]))), Ok(vec![f16s(&[2, 5, 7, 3])]));
    assert_eq!(Transpose.infer(&[x.clone()], Some(&perm(&[3, 2, 1, 0]))), Ok(vec![f16s(&[7, 5, 3, 2])]));
    assert_eq!(Transpose.infer(&[x.clone()], Some(&perm(&[0, 1, 2]))), Err(OpError::ArgError));
    assert_eq!(Transpose.infer(&[x.clone()], Some(&perm(&[0, 1, 2, 2]))), Err(OpError::ArgError));
    assert_eq!(Transpose.infer(&[x.clone()], Some(&perm(&[0, 1, 2, 4]))), Err(OpError::ArgError));
    assert_eq!(Transpose.infer(&[x.clone()], Some(&perm(&[0, 1, 2, -1]))), Err(OpError::ArgError));
    assert_eq!(Transpose.infer(&[x.clone()], None), Err(OpError::ArgError));
    assert_eq!(
        Transpose.infer(&[x.clone()], Some(&dict(vec![("perm", Arg::Int(1))]))),
        Err(OpError::ArgError)
    );
    assert_eq!(
        Transpose.infer(
            &[x.clone()],
            Some(&dict(vec![("perm", int_list(&[0, 1, 2, 3])), ("axis", Arg::Int(0))]))
        ),
        Err(OpError::ArgError)
    );
    assert_eq!(
        Transpose.infer(&[x.clone(), x], Some(&perm(&[0, 1, 2, 3]))),
        Err(OpError::ShapeError)
    );
}

#[test]
fn tile_rules() {
    let x = f16s(&[2, 12, 5]);
    let tile = |axis: i64, tiles: &[i64]| dict(vec![("axis", Arg::Int(axis)), ("tiles", int_list(tiles))]);
    assert_eq!(Tile.infer(&[x.clone()], Some(&tile(1, &[3, 4]))), Ok(vec![f16s(&[2, 3, 4, 5])]));
    assert_eq!(Tile.infer(&[x.clone()], Some(&tile(1, &[2, 3, 2]))), Ok(vec![f16s(&[2, 2, 3, 2, 5])]));
    assert_eq!(Tile.infer(&[x.clone()], Some(&tile(2, &[5]))), Ok(vec![f16s(&[2, 12, 5])]));
    assert_eq!(Tile.infer(&[x.clone()], Some(&tile(1, &[3, 5]))), Err(OpError::ShapeMismatch));
    assert_eq!(
        Tile.infer(&[x.clone()], Some(&tile(1, &[i64::MAX, i64::MAX, 4]))),
        Err(OpError::ShapeMismatch)
    );
    assert_eq!(Tile.infer(&[x.clone()], Some(&tile(3, &[3, 4]))), Err(OpError::ArgError));
    assert_eq!(Tile.infer(&[x.clone()], Some(&tile(-1, &[3, 4]))), Err(OpError::ArgError));
    assert_eq!(Tile.infer(&[x.clone()], Some(&tile(1, &[0, 12]))), Err(OpError::ShapeMismatch));
    assert_eq!(Tile.infer(&[x.clone()], Some(&tile(1, &[-3, -4]))), Err(OpError::ArgError));
    assert_eq!(Tile.infer(&[f16s(&[2, 0])], Some(&tile(1, &[4, 0]))), Ok(vec![f16s(&[2, 4, 0])]));
    assert_eq!(Tile.infer(&[f16s(&[2, 1])], Some(&tile(1, &[]))), Ok(vec![f16s(&[2])]));
    assert_eq!(
        Tile.infer(&[x.clone()], Some(&dict(vec![("axis", Arg::Int(1))]))),
        Err(OpError::ArgError)
    );
    assert_eq!(Tile.infer(&[x.clone()], None), Err(OpError::ArgError));
    assert_eq!(Tile.infer(&[], Some(&tile(1, &[3, 4]))), Err(OpError::ShapeError));
    let named = TensorMeta::new(Dtype::F16, vec![sym("n"), Dim::Int(12)]);
    assert_eq!(Tile.infer(&[named.clone()], Some(&tile(0, &[3, 4]))), Err(OpError::ShapeError));
    assert_eq!(
        Tile.infer(&[named], Some(&tile(1, &[3, 4]))),
        Ok(vec![TensorMeta::new(Dtype::F16, vec![sym("n"), Dim::Int(3), Dim::Int(4)])])
    );
}

#[test]
fn merge_rules() {
    let x = f16s(&[2, 3, 4, 5]);
    let merge = |start: i64, len: i64| dict(vec![("start", Arg::Int(start)), ("len", Arg::Int(len))]);
    assert_eq!(Merge.infer(&[x.clone()], Some(&merge(1, 2))), Ok(vec![f16s(&[2, 12, 5])]));
    assert_eq!(Merge.infer(&[x.clone()], Some(&merge(0, 4))), Ok(vec![f16s(&[120])]));
    assert_eq!(Merge.infer(&[x.clone()], Some(&merge(3, 1))), Ok(vec![f16s(&[2, 3, 4, 5])]));
    assert_eq!(Merge.infer(&[x.clone()], Some(&merge(3, 2))), Err(OpError::ArgError));
    assert_eq!(Merge.infer(&[x.clone()], Some(&merge(1, 0))), Err(OpError::ArgError));
    assert_eq!(Merge.infer(&[x.clone()], Some(&merge(-1, 2))), Err(OpError::ArgError));
    assert_eq!(Merge.infer(&[x.clone()], None), Err(OpError::ArgError));
    assert_eq!(Merge.infer(&[x.clone(), x], Some(&merge(1, 2))), Err(OpError::ShapeError));
    let huge = f16s(&[usize::MAX, 2, 0]);
    assert_eq!(Merge.infer(&[huge.clone()], Some(&merge(0, 2))), Err(OpError::ShapeError));
    assert_eq!(Merge.infer(&[huge], Some(&merge(0, 3))), Ok(vec![f16s(&[0])]));
    let named = TensorMeta::new(Dtype::F16, vec![sym("n"), Dim::Int(3), Dim::Int(4)]);
    assert_eq!(Merge.infer(&[named.clone()], Some(&merge(0, 2))), Err(OpError::ShapeError));
    assert_eq!(
        Merge.infer(&[named], Some(&merge(1, 2))),
        Ok(vec![TensorMeta::new(Dtype::F16, vec![sym("n"), Dim::Int(12)])])
    );
}

#[test]
fn split_rules() {
    let x = f16s(&[7, 10]);
    let split = |axis: i64, parts: &[i64]| dict(vec![("axis", Arg::Int(axis)), ("parts", int_list(parts))]);
    assert_eq!(
        Split.infer(&[x.clone()], Some(&split(1, &[6, 0, 4]))),
        Ok(vec![f16s(&[7, 6]), f16s(&[7, 0]), f16s(&[7, 4])])
    );
    assert_eq!(Split.infer(&[x.clone()], Some(&split(0, &[7]))), Ok(vec![f16s(&[7, 10])]));
    assert_eq!(Split.infer(&[x.clone()], Some(&split(1, &[6, 5]))), Err(OpError::ShapeMismatch));
    assert_eq!(
        Split.infer(&[x.clone()], Some(&split(1, &[i64::MAX, i64::MAX, i64::MAX]))),
        Err(OpError::ShapeMismatch)
    );
    assert_eq!(Split.infer(&[x.clone()], Some(&split(2, &[10]))), Err(OpError::ArgError));
    assert_eq!(Split.infer(&[x.clone()], Some(&split(1, &[11, -1]))), Err(OpError::ArgError));
    assert_eq!(Split.infer(&[x.clone()], None), Err(OpError::ArgError));
    assert_eq!(Split.infer(&[], Some(&split(1, &[10]))), Err(OpError::ShapeError));
    let named = TensorMeta::new(Dtype::F16, vec![sym("n"), Dim::Int(10)]);
    assert_eq!(Split.infer(&[named], Some(&split(0, &[10]))), Err(OpError::ShapeError));
}

#[test]
fn products_and_sums_are_checked() {
    assert_eq!(product_of(&[]), Some(1));
    assert_eq!(product_of(&[3, 4, 5]), Some(60));
    assert_eq!(product_of(&[usize::MAX, 2]), None);
    assert_eq!(product_of(&[usize::MAX, 2, 0]), Some(0));
    assert_eq!(product_of(&[usize::MAX, 1]), Some(usize::MAX));
    assert_eq!(sum_of(&[]), Some(0));
    assert_eq!(sum_of(&[3, 4, 5]), Some(12));
    assert_eq!(sum_of(&[usize::MAX, 1]), None);
    assert_eq!(sum_of(&[usize::MAX, 0]), Some(usize::MAX));
}

#[test]
fn the_library_operators_run_their_rules() {
    let x = f16s(&[3, 8]);
    let table: [(Op, Vec<TensorMeta>, Option<Arg>, Vec<TensorMeta>); 8] = [
        (Op::Rearrange, vec![x.clone()], None, vec![x.clone()]),
        (Op::Gelu, vec![x.clone()], None, vec![x.clone()]),
        (Op::Add, vec![x.clone(), f16s(&[1, 8])], None, vec![x.clone()]),
        (Op::Mul, vec![x.clone(), f16s(&[3, 1])], None, vec![x.clone()]),
        (Op::Swiglu, vec![x.clone(), x.clone()], None, vec![x.clone()]),
        (Op::Softmax, vec![x.clone()], Some(Arg::Int(0)), vec![x.clone()]),
        (Op::Matmul, vec![x.clone(), f16s(&[8, 2])], None, vec![f16s(&[3, 2])]),
        (Op::Linear, vec![x.clone(), f16s(&[2, 8])], None, vec![f16s(&[3, 2])]),
    ];
    for (op, inputs, arg, outputs) in table {
        assert_eq!(op.infer(&inputs, arg.as_ref()), Ok(outputs));
    }
    assert_eq!(
        Op::Merge.infer(&[x.clone()], Some(&dict(vec![("start", Arg::Int(0)), ("len", Arg::Int(2))]))),
        Ok(vec![f16s(&[24])])
    );
    assert_eq!(
        Op::Split.infer(&[x.clone()], Some(&dict(vec![("axis", Arg::Int(1)), ("parts", int_list(&[8]))]))),
        Ok(vec![f16s(&[3, 8])])
    );
    assert_eq!(Op::Tile.infer(&[x.clone()], None), Err(OpError::ArgError));
    assert_eq!(Op::Transpose.infer(&[x.clone()], None), Err(OpError::ArgError));
    assert_eq!(Op::Conv.infer(&[x.clone()], None), Err(OpError::ShapeError));
    assert_eq!(Op::Attention.infer(&[x.clone()], None), Err(OpError::ShapeError));
    assert_eq!(Op::Rope.infer(&[x.clone()], None), Err(OpError::ShapeError));
    assert_eq!(Op::Mrope.infer(&[x.clone()], None), Err(OpError::ShapeError));
    assert_eq!(Op::Embedding.infer(&[x.clone()], None), Err(OpError::ShapeError));
    assert_eq!(Op::RmsNorm.infer(&[x.clone()], None), Err(OpError::ArgError));
    assert_eq!(Op::LayerNorm.infer(&[x], None), Err(OpError::ArgError));
}
