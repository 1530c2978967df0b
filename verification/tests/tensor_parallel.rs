use nn::dtype::Dtype;
use nn::nn::distribution::{
    whole, AttnQKV, ColumnTPWeight, Distribution, FfnGateUp, RawTensor, RowTPWeight, TPAction,
    TPError, TPTensor, WeightKind, WeightType,
};
use nn::nn::embedding::{Embedding, Table};
use nn::nn::patch_embd::PatchEmbd;

fn shard(kind: &dyn Fn(Distribution, &mut [u8], &RawTensor), dist: Distribution, len: usize, src: &RawTensor) -> Vec<u8> {
    let mut dst = vec![0xEE; len];
    kind(dist, &mut dst, src);
    dst
}

fn rows_u16(rows: usize) -> Vec<u8> {
    (0..rows).flat_map(|r| (r as u16).to_le_bytes()).collect()
}

fn row_numbers(bytes: &[u8]) -> Vec<usize> {
    bytes.chunks(2).map(|c| u16::from_le_bytes([c[0], c[1]]) as usize).collect()
}

#[test]
fn distribution_new_and_mono() {
    let d = Distribution::new(1, 2, 4);
    assert_eq!(d, Distribution { start: 1, len: 2, total: 4 });
    assert!(!d.is_mono());
    assert!(Distribution::new(0, 4, 4).is_mono());
    assert_eq!(Distribution::mono(), Distribution { start: 0, len: 1, total: 1 });
    assert!(Distribution::mono().is_mono());
}

#[test]
fn attn_qkv_shard_of_four() {
    let dist = Distribution::new(1, 1, 4);
    assert_eq!(AttnQKV(8).split_shape(dist, &[1280, 2048]), [320, 2048]);
    assert_eq!(AttnQKV(8).split_shape(dist, &[1280]), [320]);

    let data = rows_u16(1280);
    let src = RawTensor { dt: Dtype::U16, shape: vec![1280], data: &data };
    let dst = shard(&|d, dst, src| AttnQKV(8).move_data(d, dst, src), dist, 320 * 2, &src);
    let expected: Vec<usize> = (256..512).chain(1056..1088).chain(1184..1216).collect();
    assert_eq!(row_numbers(&dst), expected);
}

#[test]
fn attn_qkv_rows_of_a_matrix() {
    // gqa = 2: four blocks of two rows; two shards
    let data: Vec<u8> = (0..24).collect();
    let src = RawTensor { dt: Dtype::U8, shape: vec![8, 3], data: &data };
    let first = shard(&|d, dst, src| AttnQKV(2).move_data(d, dst, src), Distribution::new(0, 1, 2), 12, &src);
    let second = shard(&|d, dst, src| AttnQKV(2).move_data(d, dst, src), Distribution::new(1, 1, 2), 12, &src);
    assert_eq!(first, [0, 1, 2, 3, 4, 5, 12, 13, 14, 18, 19, 20]);
    assert_eq!(second, [6, 7, 8, 9, 10, 11, 15, 16, 17, 21, 22, 23]);
    assert_eq!(AttnQKV(2).split_shape(Distribution::new(1, 1, 2), &[8, 3]), [4, 3]);
}

#[test]
fn column_shards_concatenate_to_the_weight() {
    let data: Vec<u8> = (0..60).collect();
    let src = RawTensor { dt: Dtype::U16, shape: vec![6, 5], data: &data };
    let mut all = Vec::new();
    for i in 0..3 {
        let dist = Distribution::new(i, 1, 3);
        assert_eq!(ColumnTPWeight.split_shape(dist, &[6, 5]), [2, 5]);
        let part = shard(&|d, dst, src| ColumnTPWeight.move_data(d, dst, src), dist, 20, &src);
        assert_eq!(part, data[i * 20..(i + 1) * 20]);
        all.extend(part);
    }
    assert_eq!(all, data);
    let two = shard(&|d, dst, src| ColumnTPWeight.move_data(d, dst, src), Distribution::new(1, 2, 3), 40, &src);
    assert_eq!(two, data[20..60]);
    assert_eq!(ColumnTPWeight.split_shape(Distribution::new(1, 2, 3), &[6, 5]), [4, 5]);
}

#[test]
fn gate_up_halves_concatenate_to_the_weight() {
    let data: Vec<u8> = (0..32).collect();
    let src = RawTensor { dt: Dtype::U8, shape: vec![8, 4], data: &data };
    let mut gates = Vec::new();
    let mut ups = Vec::new();
    for i in 0..2 {
        let dist = Distribution::new(i, 1, 2);
        assert_eq!(FfnGateUp.split_shape(dist, &[8, 4]), [4, 4]);
        let part = shard(&|d, dst, src| FfnGateUp.move_data(d, dst, src), dist, 16, &src);
        gates.extend_from_slice(&part[..8]);
        ups.extend_from_slice(&part[8..]);
    }
    assert_eq!(gates, data[..16]);
    assert_eq!(ups, data[16..]);
    let second = shard(&|d, dst, src| FfnGateUp.move_data(d, dst, src), Distribution::new(1, 1, 2), 16, &src);
    assert_eq!(second, [8, 9, 10, 11, 12, 13, 14, 15, 24, 25, 26, 27, 28, 29, 30, 31]);
}

#[test]
fn row_shards_take_columns() {
    // 3 rows of 4 elements of 2 bytes
    let data: Vec<u8> = (0..24).collect();
    let src = RawTensor { dt: Dtype::F16, shape: vec![3, 4], data: &data };
    let dist = Distribution::new(1, 1, 2);
    assert_eq!(RowTPWeight.split_shape(dist, &[3, 4]), [3, 2]);
    let part = shard(&|d, dst, src| RowTPWeight.move_data(d, dst, src), dist, 12, &src);
    assert_eq!(part, [4, 5, 6, 7, 12, 13, 14, 15, 20, 21, 22, 23]);
    let first = shard(&|d, dst, src| RowTPWeight.move_data(d, dst, src), Distribution::new(0, 1, 2), 12, &src);
    assert_eq!(first, [0, 1, 2, 3, 8, 9, 10, 11, 16, 17, 18, 19]);
    let mut both = first;
    both.extend(part);
    both.sort();
    assert_eq!(both, data);
}

#[test]
fn row_shards_pass_a_bias_through() {
    let data: Vec<u8> = (0..12).collect();
    let src = RawTensor { dt: Dtype::F32, shape: vec![3], data: &data };
    let dist = Distribution::new(2, 1, 4);
    assert_eq!(RowTPWeight.split_shape(dist, &[3]), [3]);
    let part = shard(&|d, dst, src| RowTPWeight.move_data(d, dst, src), dist, 12, &src);
    assert_eq!(part, data);
}

#[test]
fn a_whole_set_of_shards_is_a_copy() {
    let data: Vec<u8> = (0..72).collect();
    let src = RawTensor { dt: Dtype::U8, shape: vec![12, 6], data: &data };
    for dist in [Distribution::mono(), Distribution::new(0, 3, 3)] {
        for kind in [
            WeightKind::AttnQKV(2),
            WeightKind::FfnGateUp,
            WeightKind::ColumnParallel,
            WeightKind::RowParallel,
        ] {
            let mut dst = vec![0; 72];
            kind.move_data(dist, &mut dst, &src);
            assert_eq!(dst, data);
            assert_eq!(kind.split_shape(dist, &[12, 6]), [12, 6]);
        }
    }
    for kind in [
        WeightKind::AttnQKV(2),
        WeightKind::FfnGateUp,
        WeightKind::ColumnParallel,
        WeightKind::RowParallel,
    ] {
        assert_eq!(kind.split_shape(Distribution::mono(), &[12, 4]), [12, 4]);
        assert_eq!(kind.split_shape(Distribution::mono(), &[12]), [12]);
    }
}

#[test]
fn all_shards_hold_every_byte_once() {
    let data: Vec<u8> = (0..96).collect();
    let src = RawTensor { dt: Dtype::U16, shape: vec![12, 4], data: &data };
    for kind in [
        WeightKind::AttnQKV(1),
        WeightKind::FfnGateUp,
        WeightKind::ColumnParallel,
        WeightKind::RowParallel,
    ] {
        let mut all = Vec::new();
        for i in 0..2 {
            let dist = Distribution::new(i, 1, 2);
            let shape = kind.split_shape(dist, &[12, 4]);
            let mut dst = vec![0; shape.iter().product::<usize>() * 2];
            kind.move_data(dist, &mut dst, &src);
            all.extend(dst);
        }
        all.sort();
        assert_eq!(all, data);
    }
}

#[test]
fn actions_are_equal_when_kind_and_shards_are() {
    let dist = Distribution::new(1, 1, 4);
    assert_eq!(TPAction::new(AttnQKV(8), dist), TPAction { wt: WeightKind::AttnQKV(8), dist });
    assert_eq!(TPAction::new(AttnQKV(8), dist), TPAction::new(WeightKind::AttnQKV(8), dist));
    assert_ne!(TPAction::new(AttnQKV(8), dist), TPAction::new(AttnQKV(4), dist));
    assert_ne!(TPAction::new(ColumnTPWeight, dist), TPAction::new(RowTPWeight, dist));
    assert_ne!(TPAction::new(FfnGateUp, dist), TPAction::new(FfnGateUp, Distribution::new(2, 1, 4)));
    assert_eq!(TPAction::new(FfnGateUp, dist).wt, WeightKind::FfnGateUp);
    assert_eq!(ColumnTPWeight.to_kind(), WeightKind::ColumnParallel);
    assert_eq!(RowTPWeight.to_kind(), WeightKind::RowParallel);
}

#[test]
fn a_plain_weight_is_left_whole() {
    let t: TPTensor<u32> = 7.into();
    assert_eq!(t.act, None);
    assert_eq!(t.val, 7);
    assert_eq!(whole("w").val, "w");
    assert_eq!(whole("w").act, None);
}

#[test]
fn an_embedding_is_not_sharded() {
    let e = Embedding {
        dt: Dtype::BF16,
        d: 16,
        wte: Table { row: 100, weight: "wte" },
        wpe: Some(Table { row: 10, weight: "wpe" }),
        img_info: Some([1, 2, 3]),
    };
    let p = e.tensor_parallel();
    assert_eq!(p.dt, Dtype::BF16);
    assert_eq!(p.d, 16);
    assert_eq!(p.wte.row, 100);
    assert_eq!(p.wte.weight.val, "wte");
    assert_eq!(p.wte.weight.act, None);
    let wpe = p.wpe.unwrap();
    assert_eq!((wpe.row, wpe.weight.val, wpe.weight.act), (10, "wpe", None));
    assert_eq!(p.img_info, Some([1, 2, 3]));
}

#[test]
fn a_patch_embedding_is_handed_on_whole_or_refused() {
    let p = PatchEmbd { dt: Dtype::F16, shape: [8, 3, 2, 2], patch_embd: 'a', patch_embd1: 'b' };
    let whole = p.clone().tensor_parallel(Distribution::new(0, 2, 2)).unwrap();
    assert_eq!(whole.shape, [8, 3, 2, 2]);
    assert_eq!(whole.dt, Dtype::F16);
    assert_eq!((whole.patch_embd.val, whole.patch_embd.act), ('a', None));
    assert_eq!((whole.patch_embd1.val, whole.patch_embd1.act), ('b', None));
    assert_eq!(p.tensor_parallel(Distribution::new(0, 1, 2)).err(), Some(TPError::Unsupported));
}
