//! What the shards of a weight make together: a whole set of shards is the
//! weight itself, every shard has the size of its shape, and the shards of
//! all positions hold every byte of the weight exactly once.

use crate::arg::sizes_view;
use crate::nn::distribution::{
    column_bytes, gate_up_bytes, lemma_leading_bytes, lemma_leading_split, lemma_mul_le,
    materialized, qkv_bytes, row_bytes, row_unit, shard_len, shardable, split_shape, Distribution,
    RawTensor, WeightKind,
};
use vstd::multiset::Multiset;
use vstd::prelude::*;
use vstd::seq_lib::lemma_multiset_commutative;

verus! {

/// Shard `i` alone, out of `total`.
pub open spec fn one_of(i: usize, total: usize) -> Distribution {
    Distribution { start: i, len: 1, total }
}

/// The bytes of all the parts that a set of shards of `src` holds.
pub open spec fn part(kind: WeightKind, dist: Distribution, src: RawTensor) -> Seq<u8> {
    materialized(kind, dist, src.data@, src.shape@, src.dt.spec_nbytes() as int)
}

/// The parts of the shards `0 .. n` out of `total`, one after the other.
pub open spec fn shards(kind: WeightKind, n: usize, total: usize, src: RawTensor) -> Seq<u8>
    decreases n,
{
    if n == 0 {
        Seq::empty()
    } else {
        shards(kind, (n - 1) as usize, total, src) + part(kind, one_of((n - 1) as usize, total), src)
    }
}

/// The bytes `from .. to` of the part of each of the shards `0 .. n` out of
/// `total`, one after the other.
pub open spec fn slices(
    kind: WeightKind,
    n: usize,
    total: usize,
    src: RawTensor,
    from: int,
    to: int,
) -> Seq<u8>
    decreases n,
{
    if n == 0 {
        Seq::empty()
    } else {
        slices(kind, (n - 1) as usize, total, src, from, to) + part(
            kind,
            one_of((n - 1) as usize, total),
            src,
        ).subrange(from, to)
    }
}

/// Bytes of one group of rows: the `total`-th part of one block of the
/// leading axis, where the weight is made of `parts` blocks.
pub open spec fn piece_of(src: RawTensor, parts: int, total: usize) -> int {
    src.data@.len() as int / parts / total as int
}

/// Number of blocks that the leading axis of a weight of `kind` is made of.
pub open spec fn blocks(kind: WeightKind) -> int {
    match kind {
        WeightKind::AttnQKV(gqa) => gqa + 2,
        WeightKind::FfnGateUp => 2,
        _ => 1,
    }
}

/// How the bytes of a shardable weight that is cut along its leading axis
/// divide into blocks and pieces.
pub proof fn lemma_pieces(kind: WeightKind, dist: Distribution, src: RawTensor)
    requires
        shardable(kind, dist, src),
        !(kind is RowParallel),
    ensures
        ({
            let n = src.data@.len() as int;
            let shard = n / blocks(kind);
            let piece = piece_of(src, blocks(kind), dist.total);
            &&& shard >= 0
            &&& piece >= 0
            &&& blocks(kind) * shard == n
            &&& dist.total * piece == shard
            &&& shard_len(kind, dist, src) == blocks(kind) * dist.len * piece
            &&& src.shape@[0] as int / dist.total as int * dist.total as int == src.shape@[0]
        }),
{
    let unit = src.dt.spec_nbytes() as int;
    lemma_leading_bytes(kind, dist, src.shape@, unit);
    lemma_leading_split(
        src.shape@[0] as int,
        blocks(kind),
        dist.total as int,
        dist.len as int,
        row_unit(src.shape@, unit),
    );
}

/// A part has as many bytes as its shape has elements, times the width of
/// an element.
pub proof fn lemma_part_len(kind: WeightKind, dist: Distribution, src: RawTensor)
    requires
        shardable(kind, dist, src),
    ensures
        part(kind, dist, src).len() == shard_len(kind, dist, src),
{
    let unit = src.dt.spec_nbytes() as int;
    let start = dist.start as int;
    let len = dist.len as int;
    let total = dist.total as int;
    if kind is RowParallel {
        if src.shape@.len() == 2 {
            let rows = src.shape@[0] as int;
            let cols = src.shape@[1] as int;
            let p = cols / total;
            assert(p >= 0) by (nonlinear_arith)
                requires
                    p == cols / total,
                    cols >= 0,
                    total > 0,
            ;
            assert((rows * (p * len)) * unit == rows * (len * p * unit)) by (nonlinear_arith);
            assert(rows * (len * p * unit) >= 0) by (nonlinear_arith)
                requires
                    rows >= 0,
                    len >= 0,
                    p >= 0,
                    unit >= 0,
            ;
        }
    } else {
        lemma_pieces(kind, dist, src);
        let b = blocks(kind);
        let n = src.data@.len() as int;
        let shard = n / b;
        let p = piece_of(src, b, dist.total);
        lemma_mul_le(start + len, total, p);
        lemma_mul_le(start, start + len, p);
        assert((start + len) * p == start * p + len * p) by (nonlinear_arith);
        match kind {
            WeightKind::AttnQKV(gqa) => {
                let g = gqa as int;
                assert((g + 2) * len * p == g * len * p + len * p + len * p) by (nonlinear_arith);
                assert((g + 2) * shard == g * shard + shard + shard) by (nonlinear_arith);
                assert((g + 1) * shard == g * shard + shard) by (nonlinear_arith);
                assert(g * (start + len) * p == g * start * p + g * len * p) by (nonlinear_arith);
                assert(g * (start + len) * p <= g * shard) by (nonlinear_arith)
                    requires
                        (start + len) * p <= shard,
                        g >= 0,
                ;
                assert(0 <= g * start * p && 0 <= g * len * p && 0 <= g * shard)
                    by (nonlinear_arith)
                    requires
                        g >= 0,
                        start >= 0,
                        len >= 0,
                        p >= 0,
                        shard >= 0,
                ;
            },
            WeightKind::FfnGateUp => {
                assert(2 * len * p == len * p + len * p) by (nonlinear_arith);
            },
            _ => {
                assert(1 * len * p == len * p) by (nonlinear_arith);
            },
        }
    }
}

/// A set of shards that is the whole set holds the weight itself: its part
/// is a byte-exact copy, and its shape is the weight's shape.
pub proof fn lemma_whole_is_copied(kind: WeightKind, dist: Distribution, src: RawTensor)
    requires
        shardable(kind, dist, src),
        dist.len == dist.total,
    ensures
        part(kind, dist, src) == src.data@,
        split_shape(kind, dist, src.shape@) == sizes_view(src.shape@),
{
    let unit = src.dt.spec_nbytes() as int;
    let total = dist.total as int;
    let data = src.data@;
    let n = data.len() as int;
    assert(dist.start == 0);
    if kind is RowParallel {
        if src.shape@.len() == 2 {
            let rows = src.shape@[0] as int;
            let cols = src.shape@[1] as int;
            let p = cols / total;
            assert(cols == p * total) by (nonlinear_arith)
                requires
                    p == cols / total,
                    cols % total == 0,
                    total > 0,
            ;
            let width = total * p * unit;
            assert(width == cols * unit) by (nonlinear_arith)
                requires
                    width == total * p * unit,
                    cols == p * total,
            ;
            assert(rows * cols * unit == rows * (cols * unit)) by (nonlinear_arith);
            assert(0 * p * unit == 0) by (nonlinear_arith);
            let got = row_bytes(dist, data, rows, cols, unit);
            assert(got.len() == n);
            assert forall|i: int| 0 <= i < n implies got[i] == data[i] by {
                if width > 0 {
                    vstd::arithmetic::div_mod::lemma_fundamental_div_mod(i, width);
                    assert((i / width) * width == width * (i / width)) by (nonlinear_arith);
                }
            }
            assert(got =~= data);
            assert(split_shape(kind, dist, src.shape@) =~= sizes_view(src.shape@));
        } else {
            assert(split_shape(kind, dist, src.shape@) =~= sizes_view(src.shape@));
        }
    } else {
        lemma_pieces(kind, dist, src);
        let b = blocks(kind);
        let shard = n / b;
        let p = piece_of(src, b, dist.total);
        assert(0 * p == 0) by (nonlinear_arith);
        assert((0 + total) * p == total * p) by (nonlinear_arith);
        match kind {
            WeightKind::AttnQKV(gqa) => {
                let g = gqa as int;
                assert((g + 2) * shard == g * shard + shard + shard) by (nonlinear_arith);
                assert((g + 1) * shard == g * shard + shard) by (nonlinear_arith);
                assert(g * 0 * p == 0) by (nonlinear_arith);
                assert(g * (0 + total) * p == g * shard) by (nonlinear_arith)
                    requires
                        total * p == shard,
                ;
                assert(0 <= g * shard) by (nonlinear_arith)
                    requires
                        g >= 0,
                        shard >= 0,
                ;
                assert(qkv_bytes(g, dist, data) =~= data);
            },
            WeightKind::FfnGateUp => {
                assert(gate_up_bytes(dist, data) =~= data);
            },
            _ => {
                assert(column_bytes(dist, data) =~= data);
            },
        }
        assert(split_shape(kind, dist, src.shape@) =~= sizes_view(src.shape@));
    }
}

/// A range of bytes holds what its two halves hold.
pub proof fn lemma_range_split(s: Seq<u8>, a: int, b: int, c: int)
    requires
        0 <= a <= b <= c <= s.len(),
    ensures
        s.subrange(a, c) == s.subrange(a, b) + s.subrange(b, c),
        s.subrange(a, c).to_multiset() == s.subrange(a, b).to_multiset().add(
            s.subrange(b, c).to_multiset(),
        ),
{
    assert(s.subrange(a, c) =~= s.subrange(a, b) + s.subrange(b, c));
    lemma_multiset_commutative(s.subrange(a, b), s.subrange(b, c));
}

/// The first `n` shards of a weight cut along its leading axis are its
/// first `n` groups of rows.
pub proof fn lemma_column_prefix(n: usize, total: usize, src: RawTensor)
    requires
        shardable(WeightKind::ColumnParallel, one_of(0, total), src),
        n <= total,
    ensures
        n * piece_of(src, 1, total) <= src.data@.len(),
        shards(WeightKind::ColumnParallel, n, total, src) == src.data@.subrange(
            0,
            n * piece_of(src, 1, total),
        ),
    decreases n,
{
    let kind = WeightKind::ColumnParallel;
    let data = src.data@;
    let p = piece_of(src, 1, total);
    lemma_pieces(kind, one_of(0, total), src);
    lemma_mul_le(n as int, total as int, p);
    if n == 0 {
        assert(0 * p == 0) by (nonlinear_arith);
        assert(shards(kind, n, total, src) =~= data.subrange(0, 0));
    } else {
        let m = (n - 1) as usize;
        lemma_column_prefix(m, total, src);
        lemma_mul_le(m as int, n as int, p);
        assert((m + 1) * p == m * p + p) by (nonlinear_arith);
        lemma_range_split(data, 0, m * p, n * p);
    }
}

/// The shards of all positions of a weight cut along its leading axis, one
/// after the other, are the weight.
pub proof fn lemma_column_shards_rebuild(total: usize, src: RawTensor)
    requires
        shardable(WeightKind::ColumnParallel, one_of(0, total), src),
    ensures
        shards(WeightKind::ColumnParallel, total, total, src) == src.data@,
{
    lemma_column_prefix(total, total, src);
    lemma_pieces(WeightKind::ColumnParallel, one_of(0, total), src);
    assert(src.data@.subrange(0, src.data@.len() as int) =~= src.data@);
}

/// The first halves of the first `n` shards of a fused gate and up weight
/// are the first `n` groups of rows of its first half, and likewise for
/// the second halves.
pub proof fn lemma_gate_up_prefix(n: usize, total: usize, src: RawTensor)
    requires
        shardable(WeightKind::FfnGateUp, one_of(0, total), src),
        n <= total,
    ensures
        ({
            let p = piece_of(src, 2, total);
            let shard = src.data@.len() as int / 2;
            &&& 0 <= n * p <= shard
            &&& shard + shard == src.data@.len()
            &&& slices(WeightKind::FfnGateUp, n, total, src, 0, p) == src.data@.subrange(0, n * p)
            &&& slices(WeightKind::FfnGateUp, n, total, src, p, 2 * p) == src.data@.subrange(
                shard,
                shard + n * p,
            )
            &&& shards(WeightKind::FfnGateUp, n, total, src).to_multiset() == src.data@.subrange(
                0,
                n * p,
            ).to_multiset().add(src.data@.subrange(shard, shard + n * p).to_multiset())
        }),
    decreases n,
{
    broadcast use vstd::multiset::group_multiset_axioms;

    let kind = WeightKind::FfnGateUp;
    let data = src.data@;
    let p = piece_of(src, 2, total);
    let shard = data.len() as int / 2;
    lemma_pieces(kind, one_of(0, total), src);
    lemma_mul_le(n as int, total as int, p);
    if n == 0 {
        assert(0 * p == 0) by (nonlinear_arith);
        assert(slices(kind, n, total, src, 0, p) =~= data.subrange(0, 0));
        assert(slices(kind, n, total, src, p, 2 * p) =~= data.subrange(shard, shard));
        assert(data.subrange(0, 0) =~= Seq::<u8>::empty());
        assert(data.subrange(shard, shard) =~= Seq::<u8>::empty());
        lemma_multiset_commutative(Seq::<u8>::empty(), Seq::<u8>::empty());
        assert(Seq::<u8>::empty() + Seq::<u8>::empty() =~= Seq::<u8>::empty());
        assert(shards(kind, n, total, src).to_multiset() =~= data.subrange(
            0,
            0,
        ).to_multiset().add(data.subrange(shard, shard).to_multiset()));
    } else {
        let m = (n - 1) as usize;
        lemma_gate_up_prefix(m, total, src);
        lemma_mul_le(m as int, n as int, p);
        assert((m + 1) * p == m * p + p) by (nonlinear_arith);
        let gate = data.subrange(m * p, n * p);
        let up = data.subrange(shard + m * p, shard + n * p);
        let one = part(kind, one_of(m, total), src);
        assert(one == gate + up);
        assert(one.subrange(0, p) =~= gate);
        assert(one.subrange(p, 2 * p) =~= up);
        lemma_range_split(data, 0, m * p, n * p);
        lemma_range_split(data, shard, shard + m * p, shard + n * p);
        lemma_multiset_commutative(gate, up);
        lemma_multiset_commutative(shards(kind, m, total, src), one);
        assert(shards(kind, n, total, src).to_multiset() =~= data.subrange(
            0,
            n * p,
        ).to_multiset().add(data.subrange(shard, shard + n * p).to_multiset()));
    }
}

/// The first halves of the shards of all positions, followed by their second
/// halves, are the fused gate and up weight.
pub proof fn lemma_gate_up_shards_rebuild(total: usize, src: RawTensor)
    requires
        shardable(WeightKind::FfnGateUp, one_of(0, total), src),
    ensures
        ({
            let p = piece_of(src, 2, total);
            slices(WeightKind::FfnGateUp, total, total, src, 0, p) + slices(
                WeightKind::FfnGateUp,
                total,
                total,
                src,
                p,
                2 * p,
            ) == src.data@
        }),
{
    let data = src.data@;
    let p = piece_of(src, 2, total);
    lemma_gate_up_prefix(total, total, src);
    lemma_pieces(WeightKind::FfnGateUp, one_of(0, total), src);
    assert(data.subrange(0, total * p) + data.subrange(total * p, total * p + total * p) =~= data);
}

/// The first `n` shards of a fused query, key and value weight hold the
/// first `n` groups of queries, of keys and of values.
pub proof fn lemma_qkv_prefix(gqa: usize, n: usize, total: usize, src: RawTensor)
    requires
        shardable(WeightKind::AttnQKV(gqa), one_of(0, total), src),
        n <= total,
    ensures
        ({
            let g = gqa as int;
            let p = piece_of(src, g + 2, total);
            let shard = src.data@.len() as int / (g + 2);
            &&& 0 <= n * p <= shard
            &&& 0 <= g * n * p <= g * shard
            &&& g * shard + shard + shard == src.data@.len()
            &&& shards(WeightKind::AttnQKV(gqa), n, total, src).to_multiset()
                == src.data@.subrange(0, g * n * p).to_multiset().add(
                src.data@.subrange(g * shard, g * shard + n * p).to_multiset(),
            ).add(src.data@.subrange(g * shard + shard, g * shard + shard + n * p).to_multiset())
        }),
    decreases n,
{
    broadcast use vstd::multiset::group_multiset_axioms;

    let kind = WeightKind::AttnQKV(gqa);
    let data = src.data@;
    let g = gqa as int;
    let p = piece_of(src, g + 2, total);
    let shard = data.len() as int / (g + 2);
    lemma_pieces(kind, one_of(0, total), src);
    lemma_mul_le(n as int, total as int, p);
    assert((g + 2) * shard == g * shard + shard + shard) by (nonlinear_arith);
    assert((g + 1) * shard == g * shard + shard) by (nonlinear_arith);
    assert(0 <= g * n * p <= g * shard) by (nonlinear_arith)
        requires
            0 <= n * p <= shard,
            g >= 0,
    ;
    if n == 0 {
        assert(g * 0 * p == 0 && 0 * p == 0) by (nonlinear_arith);
        assert(data.subrange(0, 0) =~= Seq::<u8>::empty());
        assert(data.subrange(g * shard, g * shard) =~= Seq::<u8>::empty());
        assert(data.subrange(g * shard + shard, g * shard + shard) =~= Seq::<u8>::empty());
        lemma_multiset_commutative(Seq::<u8>::empty(), Seq::<u8>::empty());
        assert(Seq::<u8>::empty() + Seq::<u8>::empty() =~= Seq::<u8>::empty());
        assert(shards(kind, n, total, src).to_multiset() =~= data.subrange(
            0,
            0,
        ).to_multiset().add(data.subrange(g * shard, g * shard).to_multiset()).add(
            data.subrange(g * shard + shard, g * shard + shard).to_multiset(),
        ));
    } else {
        let m = (n - 1) as usize;
        lemma_qkv_prefix(gqa, m, total, src);
        lemma_mul_le(m as int, n as int, p);
        assert((m + 1) * p == m * p + p) by (nonlinear_arith);
        assert(g * (m + 1) * p == g * m * p + g * p) by (nonlinear_arith);
        assert(g * n * p == g * m * p + g * p);
        assert(0 <= g * p) by (nonlinear_arith)
            requires
                g >= 0,
                p >= 0,
        ;
        let q = data.subrange(g * m * p, g * n * p);
        let k = data.subrange(g * shard + m * p, g * shard + n * p);
        let v = data.subrange(g * shard + shard + m * p, g * shard + shard + n * p);
        let one = part(kind, one_of(m, total), src);
        assert(one == q + k + v);
        lemma_range_split(data, 0, g * m * p, g * n * p);
        lemma_range_split(data, g * shard, g * shard + m * p, g * shard + n * p);
        lemma_range_split(
            data,
            g * shard + shard,
            g * shard + shard + m * p,
            g * shard + shard + n * p,
        );
        lemma_multiset_commutative(q, k);
        lemma_multiset_commutative(q + k, v);
        lemma_multiset_commutative(shards(kind, m, total, src), one);
        assert(shards(kind, n, total, src).to_multiset() =~= data.subrange(
            0,
            g * n * p,
        ).to_multiset().add(data.subrange(g * shard, g * shard + n * p).to_multiset()).add(
            data.subrange(g * shard + shard, g * shard + shard + n * p).to_multiset(),
        ));
    }
}

/// The columns `from .. from + len` of `total` equal groups, of each of the
/// first `rows` rows of a weight of rank two.
pub open spec fn columns(src: RawTensor, rows: int, from: usize, len: usize, total: usize) -> Seq<
    u8,
> {
    row_bytes(
        Distribution { start: from, len, total },
        src.data@,
        rows,
        src.shape@[1] as int,
        src.dt.spec_nbytes() as int,
    )
}

/// Where the groups of columns `from .. from + len` lie within a row.
pub proof fn lemma_columns_fit(src: RawTensor, rows: int, from: usize, len: usize, total: usize)
    requires
        shardable(WeightKind::RowParallel, one_of(0, total), src),
        src.shape@.len() == 2,
        from + len <= total,
        0 <= rows <= src.shape@[0],
    ensures
        ({
            let unit = src.dt.spec_nbytes() as int;
            let pitch = src.shape@[1] as int * unit;
            let p = src.shape@[1] as int / total as int;
            let off = from * p * unit;
            let width = len * p * unit;
            &&& 0 <= off
            &&& 0 <= width
            &&& off + width <= pitch
            &&& 0 <= rows * pitch <= src.data@.len()
            &&& 0 <= rows * width
            &&& columns(src, rows, from, len, total).len() == rows * width
            &&& rows == 0 ==> columns(src, rows, from, len, total).len() == 0
        }),
{
    let unit = src.dt.spec_nbytes() as int;
    let cols = src.shape@[1] as int;
    let all = src.shape@[0] as int;
    let pitch = cols * unit;
    let p = cols / total as int;
    assert(0 <= p && p * total <= cols) by (nonlinear_arith)
        requires
            p == cols / total as int,
            cols >= 0,
            total > 0,
    ;
    lemma_mul_le((from + len) as int, total as int, p);
    lemma_mul_le(from as int, (from + len) as int, p);
    lemma_mul_le(len as int, (from + len) as int, p);
    lemma_mul_le((from + len) * p, cols, unit);
    lemma_mul_le(from * p, (from + len) * p, unit);
    lemma_mul_le(len * p, (from + len) * p, unit);
    assert((from + len) * p * unit == from * p * unit + len * p * unit) by (nonlinear_arith);
    assert(all * cols * unit == all * (cols * unit)) by (nonlinear_arith);
    lemma_mul_le(rows, all, pitch);
    lemma_mul_le(0, rows, len * p * unit);
    assert(0 <= rows * (len * p * unit)) by (nonlinear_arith)
        requires
            0 <= rows,
            0 <= len * p * unit,
    ;
    assert(0 * (len * p * unit) == 0) by (nonlinear_arith);
}

/// The groups of columns of `rows` rows are those of one row less, followed
/// by those of the last row.
pub proof fn lemma_columns_last_row(
    src: RawTensor,
    rows: int,
    from: usize,
    len: usize,
    total: usize,
)
    requires
        shardable(WeightKind::RowParallel, one_of(0, total), src),
        src.shape@.len() == 2,
        from + len <= total,
        0 < rows <= src.shape@[0],
    ensures
        ({
            let unit = src.dt.spec_nbytes() as int;
            let pitch = src.shape@[1] as int * unit;
            let p = src.shape@[1] as int / total as int;
            let at = (rows - 1) * pitch + from * p * unit;
            &&& 0 <= at
            &&& at + len * p * unit <= src.data@.len()
            &&& columns(src, rows, from, len, total) == columns(src, rows - 1, from, len, total)
                + src.data@.subrange(at, at + len * p * unit)
        }),
{
    let unit = src.dt.spec_nbytes() as int;
    let pitch = src.shape@[1] as int * unit;
    let p = src.shape@[1] as int / total as int;
    let off = from * p * unit;
    let width = len * p * unit;
    let at = (rows - 1) * pitch + off;
    lemma_columns_fit(src, rows, from, len, total);
    lemma_columns_fit(src, rows - 1, from, len, total);
    assert(rows * pitch == (rows - 1) * pitch + pitch) by (nonlinear_arith);
    assert(rows * width == (rows - 1) * width + width) by (nonlinear_arith);
    let whole = columns(src, rows, from, len, total);
    let before = columns(src, rows - 1, from, len, total);
    let last = src.data@.subrange(at, at + width);
    assert forall|i: int| 0 <= i < whole.len() implies whole[i] == (before + last)[i] by {
        if i >= before.len() {
            vstd::arithmetic::div_mod::lemma_fundamental_div_mod_converse(
                i,
                width,
                rows - 1,
                i - (rows - 1) * width,
            );
        }
    }
    assert(whole =~= before + last);
}

/// The groups of columns `from .. from + x + y` hold what the groups
/// `from .. from + x` and the groups `from + x .. from + x + y` hold.
pub proof fn lemma_columns_split(
    src: RawTensor,
    rows: int,
    from: usize,
    x: usize,
    y: usize,
    total: usize,
)
    requires
        shardable(WeightKind::RowParallel, one_of(0, total), src),
        src.shape@.len() == 2,
        from + x + y <= total,
        0 <= rows <= src.shape@[0],
    ensures
        columns(src, rows, from, (x + y) as usize, total).to_multiset() == columns(
            src,
            rows,
            from,
            x,
            total,
        ).to_multiset().add(columns(src, rows, (from + x) as usize, y, total).to_multiset()),
    decreases rows,
{
    broadcast use vstd::multiset::group_multiset_axioms;

    let both = columns(src, rows, from, (x + y) as usize, total);
    let left = columns(src, rows, from, x, total);
    let right = columns(src, rows, (from + x) as usize, y, total);
    if rows == 0 {
        lemma_columns_fit(src, rows, from, (x + y) as usize, total);
        lemma_columns_fit(src, rows, from, x, total);
        lemma_columns_fit(src, rows, (from + x) as usize, y, total);
        assert(both =~= Seq::<u8>::empty());
        assert(left =~= Seq::<u8>::empty());
        assert(right =~= Seq::<u8>::empty());
        lemma_multiset_commutative(Seq::<u8>::empty(), Seq::<u8>::empty());
        assert(Seq::<u8>::empty() + Seq::<u8>::empty() =~= Seq::<u8>::empty());
    } else {
        let unit = src.dt.spec_nbytes() as int;
        let pitch = src.shape@[1] as int * unit;
        let p = src.shape@[1] as int / total as int;
        let base = (rows - 1) * pitch;
        lemma_columns_split(src, rows - 1, from, x, y, total);
        lemma_columns_last_row(src, rows, from, (x + y) as usize, total);
        lemma_columns_last_row(src, rows, from, x, total);
        lemma_columns_last_row(src, rows, (from + x) as usize, y, total);
        assert((from + x) * p * unit == from * p * unit + x * p * unit) by (nonlinear_arith);
        assert((x + y) * p * unit == x * p * unit + y * p * unit) by (nonlinear_arith);
        let a = base + from * p * unit;
        let b = a + x * p * unit;
        let c = b + y * p * unit;
        lemma_columns_fit(src, rows, from, x, total);
        lemma_columns_fit(src, rows, (from + x) as usize, y, total);
        lemma_range_split(src.data@, a, b, c);
        lemma_multiset_commutative(
            columns(src, rows - 1, from, (x + y) as usize, total),
            src.data@.subrange(a, c),
        );
        lemma_multiset_commutative(columns(src, rows - 1, from, x, total), src.data@.subrange(a, b));
        lemma_multiset_commutative(
            columns(src, rows - 1, (from + x) as usize, y, total),
            src.data@.subrange(b, c),
        );
        assert(both.to_multiset() =~= left.to_multiset().add(right.to_multiset()));
    }
}

/// The first `n` shards of a weight of rank two cut along its second axis
/// hold what its first `n` groups of columns hold.
pub proof fn lemma_row_prefix(n: usize, total: usize, src: RawTensor)
    requires
        shardable(WeightKind::RowParallel, one_of(0, total), src),
        src.shape@.len() == 2,
        n <= total,
    ensures
        shards(WeightKind::RowParallel, n, total, src).to_multiset() == columns(
            src,
            src.shape@[0] as int,
            0,
            n,
            total,
        ).to_multiset(),
    decreases n,
{
    broadcast use vstd::multiset::group_multiset_axioms;

    let kind = WeightKind::RowParallel;
    let rows = src.shape@[0] as int;
    if n == 0 {
        lemma_columns_fit(src, rows, 0, 0, total);
        assert(columns(src, rows, 0, 0, total).len() == 0) by {
            let unit = src.dt.spec_nbytes() as int;
            let p = src.shape@[1] as int / total as int;
            assert(rows * (0 * p * unit) == 0) by (nonlinear_arith);
        }
        assert(columns(src, rows, 0, 0, total) =~= Seq::<u8>::empty());
    } else {
        let m = (n - 1) as usize;
        lemma_row_prefix(m, total, src);
        lemma_columns_split(src, rows, 0, m, 1, total);
        let one = part(kind, one_of(m, total), src);
        assert(one == columns(src, rows, m, 1, total));
        lemma_multiset_commutative(shards(kind, m, total, src), one);
    }
}

/// Every shard of a weight of rank one that is cut along its second axis
/// is the whole weight.
pub proof fn lemma_rank_one_row_shards(n: usize, total: usize, src: RawTensor)
    requires
        shardable(WeightKind::RowParallel, one_of(0, total), src),
        src.shape@.len() == 1,
        n <= total,
    ensures
        shards(WeightKind::RowParallel, n, total, src).len() == n * src.data@.len(),
        n == 1 ==> shards(WeightKind::RowParallel, n, total, src) == src.data@,
    decreases n,
{
    if n > 0 {
        lemma_rank_one_row_shards((n - 1) as usize, total, src);
        assert(n * src.data@.len() == (n - 1) * src.data@.len() + src.data@.len())
            by (nonlinear_arith);
        if n == 1 {
            assert(shards(WeightKind::RowParallel, 0, total, src) =~= Seq::<u8>::empty());
            assert(shards(WeightKind::RowParallel, n, total, src) =~= src.data@);
        }
    } else {
        assert(0 * src.data@.len() == 0) by (nonlinear_arith);
    }
}

/// The shards of all positions hold every byte of the weight exactly once:
/// one after the other, they are the bytes of the weight in another order.
/// A weight of rank one that is cut along its second axis is not cut at
/// all, so this holds of it only where there is one shard or no byte.
pub proof fn lemma_shards_hold_every_byte(kind: WeightKind, total: usize, src: RawTensor)
    requires
        shardable(kind, one_of(0, total), src),
        kind is RowParallel && src.shape@.len() == 1 ==> total == 1 || src.data@.len() == 0,
    ensures
        shards(kind, total, total, src).to_multiset() == src.data@.to_multiset(),
{
    broadcast use vstd::multiset::group_multiset_axioms;

    let data = src.data@;
    match kind {
        WeightKind::ColumnParallel => {
            lemma_column_shards_rebuild(total, src);
        },
        WeightKind::FfnGateUp => {
            lemma_gate_up_prefix(total, total, src);
            lemma_pieces(kind, one_of(0, total), src);
            let shard = data.len() as int / 2;
            lemma_range_split(data, 0, shard, data.len() as int);
            assert(data.subrange(0, data.len() as int) =~= data);
        },
        WeightKind::AttnQKV(gqa) => {
            lemma_qkv_prefix(gqa, total, total, src);
            lemma_pieces(kind, one_of(0, total), src);
            let g = gqa as int;
            let shard = data.len() as int / (g + 2);
            let p = piece_of(src, g + 2, total);
            assert(g * total * p == g * shard) by (nonlinear_arith)
                requires
                    total * p == shard,
            ;
            lemma_range_split(data, 0, g * shard, data.len() as int);
            lemma_range_split(data, g * shard, g * shard + shard, data.len() as int);
            assert(data.subrange(0, data.len() as int) =~= data);
        },
        WeightKind::RowParallel => {
            if src.shape@.len() == 2 {
                lemma_row_prefix(total, total, src);
                lemma_whole_is_copied(kind, Distribution { start: 0, len: total, total }, src);
            } else {
                lemma_rank_one_row_shards(total, total, src);
                if total != 1 {
                    assert(total * 0 == 0) by (nonlinear_arith);
                    assert(shards(kind, total, total, src) =~= data);
                }
            }
        },
    }
}

} // verus!
