//! Tensor-parallel sharding of weights: which part of a weight one shard
//! holds, as a shape and as bytes.

use crate::arg::sizes_view;
use crate::dtype::Dtype;
use vstd::prelude::*;

verus! {

/// The shards `start .. start + len` out of `total`.
#[derive(Clone, Copy, Debug, PartialEq, Eq, Hash, Structural)]
pub struct Distribution {
    pub start: usize,
    pub len: usize,
    pub total: usize,
}

impl Distribution {
    /// At least one shard, and none beyond the last.
    pub open spec fn valid(self) -> bool {
        0 < self.len && self.start + self.len <= self.total
    }

    /// The shards `start .. start + len` out of `total`.
    pub fn new(start: usize, len: usize, total: usize) -> (r: Distribution)
        requires
            0 < len,
            start + len <= total,
        ensures
            r == (Distribution { start, len, total }),
            r.valid(),
    {
        Distribution { start, len, total }
    }

    /// The one shard that is the whole.
    pub fn mono() -> (r: Distribution)
        ensures
            r == (Distribution { start: 0, len: 1, total: 1 }),
            r.valid(),
    {
        Distribution { start: 0, len: 1, total: 1 }
    }

    /// Whether these shards are all there are.
    pub fn is_mono(&self) -> (r: bool)
        ensures
            r == (self.len == self.total),
    {
        self.len == self.total
    }
}

/// How a weight is laid out for sharding.
#[derive(Clone, Copy, Debug, PartialEq, Eq, Hash, Structural)]
pub enum WeightKind {
    /// Query, key and value rows one after the other, with `gqa` times as
    /// many query rows as key rows.
    AttnQKV(usize),
    /// Gate rows, then as many up rows.
    FfnGateUp,
    /// Sharded along the leading axis.
    ColumnParallel,
    /// Sharded along the second axis.
    RowParallel,
}

/// A contiguous tensor of raw bytes, of rank one or two.
pub struct RawTensor<'a> {
    pub dt: Dtype,
    pub shape: Vec<usize>,
    pub data: &'a [u8],
}

/// Number of bytes of a contiguous tensor of `shape` whose elements take
/// `unit` bytes.
pub open spec fn byte_len(shape: Seq<usize>, unit: nat) -> nat {
    if shape.len() == 1 {
        shape[0] as nat * unit
    } else {
        shape[0] as nat * shape[1] as nat * unit
    }
}

impl<'a> RawTensor<'a> {
    /// Rank one or two, and as many bytes as the shape asks for.
    pub open spec fn wf(self) -> bool {
        &&& 1 <= self.shape@.len() <= 2
        &&& self.data@.len() == byte_len(self.shape@, self.dt.spec_nbytes())
    }
}

/// Shape of the part of a weight of `shape` that `dist` holds.
pub open spec fn split_shape(kind: WeightKind, dist: Distribution, shape: Seq<usize>) -> Seq<int> {
    let total = dist.total as int;
    let len = dist.len as int;
    match kind {
        WeightKind::RowParallel => if shape.len() == 1 {
            seq![shape[0] as int]
        } else {
            seq![shape[0] as int, shape[1] as int / total * len]
        },
        _ => if shape.len() == 1 {
            seq![shape[0] as int / total * len]
        } else {
            seq![shape[0] as int / total * len, shape[1] as int]
        },
    }
}

/// The rows `start .. start + len` of `total` equal groups of rows.
pub open spec fn column_bytes(dist: Distribution, src: Seq<u8>) -> Seq<u8> {
    let piece = src.len() as int / dist.total as int;
    src.subrange(dist.start * piece, (dist.start + dist.len) * piece)
}

/// The same groups out of each half of `src`.
pub open spec fn gate_up_bytes(dist: Distribution, src: Seq<u8>) -> Seq<u8> {
    let shard = src.len() as int / 2;
    let piece = shard / dist.total as int;
    src.subrange(dist.start * piece, (dist.start + dist.len) * piece) + src.subrange(
        shard + dist.start * piece,
        shard + (dist.start + dist.len) * piece,
    )
}

/// The same groups out of the queries, the keys and the values of `src`,
/// where a group of queries is `gqa` times as large.
pub open spec fn qkv_bytes(gqa: int, dist: Distribution, src: Seq<u8>) -> Seq<u8> {
    let shard = src.len() as int / (gqa + 2);
    let piece = shard / dist.total as int;
    src.subrange(gqa * dist.start * piece, gqa * (dist.start + dist.len) * piece) + src.subrange(
        gqa * shard + dist.start * piece,
        gqa * shard + (dist.start + dist.len) * piece,
    ) + src.subrange(
        (gqa + 1) * shard + dist.start * piece,
        (gqa + 1) * shard + (dist.start + dist.len) * piece,
    )
}

/// The columns `start .. start + len` of `total` equal groups of columns, of
/// each of `rows` rows of `cols` elements of `unit` bytes.
pub open spec fn row_bytes(dist: Distribution, src: Seq<u8>, rows: int, cols: int, unit: int) -> Seq<
    u8,
> {
    let piece = cols / dist.total as int;
    let width = dist.len * piece * unit;
    Seq::new(
        (rows * width) as nat,
        |i: int| src[(i / width) * (cols * unit) + dist.start * piece * unit + i % width],
    )
}

/// The bytes of the part of a weight that `dist` holds, where `src` holds
/// the whole weight of `shape` with elements of `unit` bytes.
pub open spec fn materialized(
    kind: WeightKind,
    dist: Distribution,
    src: Seq<u8>,
    shape: Seq<usize>,
    unit: int,
) -> Seq<u8> {
    match kind {
        WeightKind::AttnQKV(gqa) => qkv_bytes(gqa as int, dist, src),
        WeightKind::FfnGateUp => gate_up_bytes(dist, src),
        WeightKind::ColumnParallel => column_bytes(dist, src),
        WeightKind::RowParallel => if shape.len() == 1 {
            src
        } else {
            row_bytes(dist, src, shape[0] as int, shape[1] as int, unit)
        },
    }
}

/// What a weight of `shape` must satisfy to be sharded as `kind` into
/// `dist.total` parts: the axis that is cut divides evenly.
pub open spec fn divides(kind: WeightKind, dist: Distribution, shape: Seq<usize>) -> bool {
    let total = dist.total as int;
    &&& 1 <= shape.len() <= 2
    &&& match kind {
        WeightKind::AttnQKV(gqa) => shape[0] as int % (gqa + 2) == 0 && (shape[0] as int / (gqa
            + 2)) % total == 0,
        WeightKind::FfnGateUp => shape[0] as int % 2 == 0 && (shape[0] as int / 2) % total == 0,
        WeightKind::ColumnParallel => shape[0] as int % total == 0,
        WeightKind::RowParallel => shape.len() == 2 ==> shape[1] as int % total == 0,
    }
}

/// Number of elements of a shape of rank one or two.
pub open spec fn numel(shape: Seq<int>) -> int {
    if shape.len() == 1 {
        shape[0]
    } else {
        shape[0] * shape[1]
    }
}

/// What `move_data` demands: valid shards, a contiguous source whose cut
/// axis divides evenly, and a group count that the machine can hold.
pub open spec fn shardable(kind: WeightKind, dist: Distribution, src: RawTensor) -> bool {
    &&& dist.valid()
    &&& src.wf()
    &&& divides(kind, dist, src.shape@)
    &&& kind matches WeightKind::AttnQKV(gqa) ==> gqa + 2 <= usize::MAX
}

/// Number of bytes of the part that `dist` holds.
pub open spec fn shard_len(kind: WeightKind, dist: Distribution, src: RawTensor) -> int {
    numel(split_shape(kind, dist, src.shape@)) * src.dt.spec_nbytes()
}

/// Exact division commutes with a further factor.
pub proof fn lemma_div_exact(a: int, t: int, m: int)
    requires
        t > 0,
        a >= 0,
        m >= 0,
        a % t == 0,
    ensures
        (a * m) / t == (a / t) * m,
        (a * m) % t == 0,
        a == (a / t) * t,
{
    let q = a / t;
    assert(a == q * t) by (nonlinear_arith)
        requires
            t > 0,
            a % t == 0,
            q == a / t,
    ;
    assert(a * m == (q * m) * t) by (nonlinear_arith)
        requires
            a == q * t,
    ;
    vstd::arithmetic::div_mod::lemma_fundamental_div_mod_converse(a * m, t, q * m, 0);
}

/// Products of non-negative numbers grow with their factors.
pub proof fn lemma_mul_le(a: int, b: int, c: int)
    requires
        0 <= a <= b,
        0 <= c,
    ensures
        a * c <= b * c,
        c * a <= c * b,
        0 <= a * c,
{
    assert(a * c <= b * c && c * a <= c * b && 0 <= a * c) by (nonlinear_arith)
        requires
            0 <= a <= b,
            0 <= c,
    ;
}

/// Copies `n` bytes of `src`, from position `from`, to position `at` of `dst`.
pub fn copy_bytes(dst: &mut [u8], at: usize, src: &[u8], from: usize, n: usize)
    requires
        at + n <= old(dst)@.len(),
        from + n <= src@.len(),
    ensures
        final(dst)@.len() == old(dst)@.len(),
        forall|i: int| 0 <= i < at ==> final(dst)@[i] == old(dst)@[i],
        forall|i: int| at <= i < at + n ==> final(dst)@[i] == src@[from + i - at],
        forall|i: int| at + n <= i < old(dst)@.len() ==> final(dst)@[i] == old(dst)@[i],
{
    let limit = dst.len();
    let available = src.len();
    let mut k: usize = 0;
    while k < n
        invariant
            k <= n,
            limit == dst@.len(),
            available == src@.len(),
            at + n <= dst@.len(),
            from + n <= src@.len(),
            dst@.len() == old(dst)@.len(),
            forall|i: int| 0 <= i < at ==> dst@[i] == old(dst)@[i],
            forall|i: int| at <= i < at + k ==> dst@[i] == src@[from + i - at],
            forall|i: int| at + n <= i < old(dst)@.len() ==> dst@[i] == old(dst)@[i],
        decreases n - k,
    {
        dst[at + k] = src[from + k];
        k += 1;
    }
}

/// Shape of the part of a weight of `shape` that `dist` holds, for the kinds
/// that are cut along the leading axis.
pub fn split_leading(dist: Distribution, shape: &[usize]) -> (r: Vec<usize>)
    requires
        dist.valid(),
        1 <= shape@.len() <= 2,
    ensures
        r@.len() == shape@.len(),
        sizes_view(r@) == split_shape(WeightKind::ColumnParallel, dist, shape@),
{
    let Distribution { len, total, .. } = dist;
    let q = shape[0] / total;
    proof {
        lemma_mul_le(len as int, total as int, q as int);
        assert(q * total <= shape[0]) by (nonlinear_arith)
            requires
                q == shape[0] as int / total as int,
                total > 0,
        ;
    }
    let mut out: Vec<usize> = Vec::new();
    out.push(q * len);
    if shape.len() == 2 {
        out.push(shape[1]);
    }
    proof {
        assert(sizes_view(out@) =~= split_shape(WeightKind::ColumnParallel, dist, shape@));
    }
    out
}

/// Shape of the part of a weight of `shape` that `dist` holds, cut along the
/// second axis where there is one.
pub fn split_second(dist: Distribution, shape: &[usize]) -> (r: Vec<usize>)
    requires
        dist.valid(),
        1 <= shape@.len() <= 2,
    ensures
        r@.len() == shape@.len(),
        sizes_view(r@) == split_shape(WeightKind::RowParallel, dist, shape@),
{
    let Distribution { len, total, .. } = dist;
    let mut out: Vec<usize> = Vec::new();
    out.push(shape[0]);
    if shape.len() == 2 {
        let q = shape[1] / total;
        proof {
            lemma_mul_le(len as int, total as int, q as int);
            assert(q * total <= shape[1]) by (nonlinear_arith)
                requires
                    q == shape[1] as int / total as int,
                    total > 0,
            ;
        }
        out.push(q * len);
    }
    proof {
        assert(sizes_view(out@) =~= split_shape(WeightKind::RowParallel, dist, shape@));
    }
    out
}

/// Bytes of one step along the leading axis.
pub open spec fn row_unit(shape: Seq<usize>, unit: int) -> int {
    if shape.len() == 1 {
        unit
    } else {
        shape[1] as int * unit
    }
}

/// How the bytes of a weight divide when its leading axis of `s0` rows of
/// `m` bytes is made of `parts` blocks that each divide by `total`.
pub proof fn lemma_leading_split(s0: int, parts: int, total: int, len: int, m: int)
    requires
        parts > 0,
        total > 0,
        m >= 0,
        s0 >= 0,
        len >= 0,
        s0 % parts == 0,
        (s0 / parts) % total == 0,
    ensures
        ({
            let n = s0 * m;
            let shard = n / parts;
            let piece = shard / total;
            &&& shard >= 0
            &&& piece >= 0
            &&& parts * shard == n
            &&& total * piece == shard
            &&& (s0 / total * len) * m == parts * len * piece
            &&& s0 / total * total == s0
        }),
{
    let h = s0 / parts;
    let q = h / total;
    lemma_div_exact(s0, parts, m);
    assert(h >= 0) by (nonlinear_arith)
        requires
            h == s0 / parts,
            s0 >= 0,
            parts > 0,
    ;
    lemma_div_exact(h, total, m);
    assert(q >= 0) by (nonlinear_arith)
        requires
            q == h / total,
            h >= 0,
            total > 0,
    ;
    let n = s0 * m;
    let shard = n / parts;
    let piece = shard / total;
    assert(shard == h * m);
    assert(piece == q * m);
    assert(s0 == (q * parts) * total) by (nonlinear_arith)
        requires
            s0 == h * parts,
            h == q * total,
    ;
    vstd::arithmetic::div_mod::lemma_fundamental_div_mod_converse(s0, total, q * parts, 0);
    assert(s0 / total == q * parts);
    assert((q * parts) * total == s0);
    assert((q * parts * len) * m == parts * len * (q * m)) by (nonlinear_arith);
    assert(parts * (h * m) == (h * parts) * m) by (nonlinear_arith);
    assert(total * (q * m) == (q * total) * m) by (nonlinear_arith);
    assert(h * m >= 0 && q * m >= 0) by (nonlinear_arith)
        requires
            h >= 0,
            q >= 0,
            m >= 0,
    ;
}

/// The bytes of a contiguous tensor are its leading extent times the bytes
/// of one step along it, and so are those of its part.
pub proof fn lemma_leading_bytes(kind: WeightKind, dist: Distribution, shape: Seq<usize>, unit: int)
    requires
        1 <= shape.len() <= 2,
        unit >= 0,
        !(kind is RowParallel),
    ensures
        byte_len(shape, unit as nat) == shape[0] as int * row_unit(shape, unit),
        numel(split_shape(kind, dist, shape)) * unit == (shape[0] as int / dist.total as int
            * dist.len as int) * row_unit(shape, unit),
        row_unit(shape, unit) >= 0,
{
    let s0 = shape[0] as int;
    let k = s0 / dist.total as int * dist.len as int;
    if shape.len() == 2 {
        let s1 = shape[1] as int;
        assert(s0 * s1 * unit == s0 * (s1 * unit)) by (nonlinear_arith);
        assert((k * s1) * unit == k * (s1 * unit)) by (nonlinear_arith);
        assert(s1 * unit >= 0) by (nonlinear_arith)
            requires
                s1 >= 0,
                unit >= 0,
        ;
    }
}

/// Fills `dst` with the rows of `src` that `dist` holds.
pub fn move_column(dist: Distribution, dst: &mut [u8], src: &RawTensor)
    requires
        shardable(WeightKind::ColumnParallel, dist, *src),
        old(dst)@.len() == shard_len(WeightKind::ColumnParallel, dist, *src),
    ensures
        final(dst)@ == column_bytes(dist, src.data@),
{
    let Distribution { start, len, total } = dist;
    let n = src.data.len();
    let piece = n / total;
    proof {
        let unit = src.dt.spec_nbytes() as int;
        let m = row_unit(src.shape@, unit);
        lemma_leading_bytes(WeightKind::ColumnParallel, dist, src.shape@, unit);
        lemma_leading_split(src.shape@[0] as int, 1, total as int, len as int, m);
        lemma_mul_le((start + len) as int, total as int, piece as int);
        lemma_mul_le(start as int, (start + len) as int, piece as int);
        assert((start + len) * piece == start * piece + len * piece) by (nonlinear_arith);
    }
    copy_bytes(dst, 0, src.data, start * piece, len * piece);
    proof {
        assert(dst@ =~= column_bytes(dist, src.data@));
    }
}

/// Fills `dst` with the rows of each half of `src` that `dist` holds.
pub fn move_gate_up(dist: Distribution, dst: &mut [u8], src: &RawTensor)
    requires
        shardable(WeightKind::FfnGateUp, dist, *src),
        old(dst)@.len() == shard_len(WeightKind::FfnGateUp, dist, *src),
    ensures
        final(dst)@ == gate_up_bytes(dist, src.data@),
{
    let Distribution { start, len, total } = dist;
    let n = src.data.len();
    let shard = n / 2;
    let piece = shard / total;
    proof {
        let unit = src.dt.spec_nbytes() as int;
        let m = row_unit(src.shape@, unit);
        lemma_leading_bytes(WeightKind::FfnGateUp, dist, src.shape@, unit);
        lemma_leading_split(src.shape@[0] as int, 2, total as int, len as int, m);
        lemma_mul_le((start + len) as int, total as int, piece as int);
        lemma_mul_le(start as int, (start + len) as int, piece as int);
        assert((start + len) * piece == start * piece + len * piece) by (nonlinear_arith);
        assert(2 * len * piece == len * piece + len * piece) by (nonlinear_arith);
    }
    copy_bytes(dst, 0, src.data, start * piece, len * piece);
    copy_bytes(dst, len * piece, src.data, shard + start * piece, len * piece);
    proof {
        assert(dst@ =~= gate_up_bytes(dist, src.data@));
    }
}

/// Fills `dst` with the query, key and value rows of `src` that `dist` holds.
pub fn move_qkv(gqa: usize, dist: Distribution, dst: &mut [u8], src: &RawTensor)
    requires
        shardable(WeightKind::AttnQKV(gqa), dist, *src),
        old(dst)@.len() == shard_len(WeightKind::AttnQKV(gqa), dist, *src),
    ensures
        final(dst)@ == qkv_bytes(gqa as int, dist, src.data@),
{
    let Distribution { start, len, total } = dist;
    let n = src.data.len();
    let shard = n / (gqa + 2);
    let piece = shard / total;
    proof {
        let unit = src.dt.spec_nbytes() as int;
        let m = row_unit(src.shape@, unit);
        let g = gqa as int;
        let p = piece as int;
        lemma_leading_bytes(WeightKind::AttnQKV(gqa), dist, src.shape@, unit);
        lemma_leading_split(src.shape@[0] as int, g + 2, total as int, len as int, m);
        lemma_mul_le((start + len) as int, total as int, p);
        lemma_mul_le(start as int, (start + len) as int, p);
        assert((start + len) * p == start * p + len * p) by (nonlinear_arith);
        assert((g + 2) * len * p == g * len * p + len * p + len * p) by (nonlinear_arith);
        assert((g + 2) * shard == g * shard + shard + shard) by (nonlinear_arith);
        assert((g + 1) * shard == g * shard + shard) by (nonlinear_arith);
        assert(g * (start + len) * p == g * start * p + g * len * p) by (nonlinear_arith);
        assert(g * (start + len) * p <= g * shard) by (nonlinear_arith)
            requires
                (start + len) * p <= shard,
                g >= 0,
        ;
        assert(0 <= g * start * p && 0 <= g * len * p && 0 <= g * shard && 0 <= g * start
            && 0 <= g * len) by (nonlinear_arith)
            requires
                g >= 0,
                start >= 0,
                len >= 0,
                p >= 0,
                shard >= 0,
        ;
        assert(g * start <= g * start * p || p == 0) by (nonlinear_arith)
            requires
                g >= 0,
                start >= 0,
                p >= 0,
        ;
        assert(g * len <= g * len * p || p == 0) by (nonlinear_arith)
            requires
                g >= 0,
                len >= 0,
                p >= 0,
        ;
    }
    if piece == 0 {
        proof {
            let g = gqa as int;
            let p = piece as int;
            assert((g + 2) * len * p == 0 && g * start * p == 0 && g * (start + len) * p == 0
                && start * p == 0 && (start + len) * p == 0) by (nonlinear_arith)
                requires
                    p == 0,
            ;
            assert(dst@ =~= qkv_bytes(gqa as int, dist, src.data@));
        }
        return ;
    }
    let q_len = gqa * len * piece;
    let kv_len = len * piece;
    copy_bytes(dst, 0, src.data, gqa * start * piece, q_len);
    copy_bytes(dst, q_len, src.data, gqa * shard + start * piece, kv_len);
    copy_bytes(dst, q_len + kv_len, src.data, (gqa + 1) * shard + start * piece, kv_len);
    proof {
        assert(dst@ =~= qkv_bytes(gqa as int, dist, src.data@));
    }
}

/// Fills `dst` with the columns of `src` that `dist` holds, row by row; a
/// weight of rank one is copied whole.
pub fn move_row(dist: Distribution, dst: &mut [u8], src: &RawTensor)
    requires
        shardable(WeightKind::RowParallel, dist, *src),
        old(dst)@.len() == shard_len(WeightKind::RowParallel, dist, *src),
    ensures
        final(dst)@ == materialized(
            WeightKind::RowParallel,
            dist,
            src.data@,
            src.shape@,
            src.dt.spec_nbytes() as int,
        ),
{
    let Distribution { start, len, total } = dist;
    let n = src.data.len();
    if src.shape.len() == 1 {
        copy_bytes(dst, 0, src.data, 0, n);
        proof {
            assert(dst@ =~= src.data@);
        }
        return ;
    }
    let rows = src.shape[0];
    let cols = src.shape[1];
    let unit = src.dt.nbytes();
    let piece = cols / total;
    proof {
        let p = piece as int;
        let u = unit as int;
        assert(p * total <= cols) by (nonlinear_arith)
            requires
                p == cols as int / total as int,
                total > 0,
        ;
        lemma_mul_le((start + len) as int, total as int, p);
        lemma_mul_le(start as int, (start + len) as int, p);
        lemma_mul_le(len as int, (start + len) as int, p);
        lemma_mul_le(((start + len) * p) as int, cols as int, u);
        lemma_mul_le((start * p) as int, ((start + len) * p) as int, u);
        lemma_mul_le((len * p) as int, ((start + len) * p) as int, u);
        assert((start + len) * p * u == start * p * u + len * p * u) by (nonlinear_arith);
        assert(rows * cols * unit == rows * (cols * unit)) by (nonlinear_arith);
        assert((rows * (p * len)) * u == rows * (len * p * u)) by (nonlinear_arith);
        assert(cols * u <= rows * (cols * u) || rows == 0) by (nonlinear_arith)
            requires
                rows >= 0,
                cols * u >= 0,
        ;
    }
    if rows == 0 {
        proof {
            let spec = row_bytes(dist, src.data@, rows as int, cols as int, unit as int);
            assert(rows * (len * piece * unit) == 0) by (nonlinear_arith)
                requires
                    rows == 0,
            ;
            assert(dst@ =~= spec);
        }
        return ;
    }
    let width = len * piece * unit;
    let off = start * piece * unit;
    let pitch = cols * unit;
    if width == 0 {
        proof {
            let spec = row_bytes(dist, src.data@, rows as int, cols as int, unit as int);
            assert(rows * width == 0) by (nonlinear_arith)
                requires
                    width == 0,
            ;
            assert(dst@ =~= spec);
        }
        return ;
    }
    let ghost spec = row_bytes(dist, src.data@, rows as int, cols as int, unit as int);
    let room = dst.len();
    let mut r: usize = 0;
    while r < rows
        invariant
            r <= rows,
            room == dst@.len(),
            spec.len() == rows * width,
            width > 0,
            width == len * piece * unit,
            off == start * piece * unit,
            pitch == cols * unit,
            piece == cols as int / total as int,
            off + width <= pitch,
            n == src.data@.len(),
            n == rows * pitch,
            dst@.len() == rows * width,
            spec == row_bytes(dist, src.data@, rows as int, cols as int, unit as int),
            dist == (Distribution { start, len, total }),
            forall|i: int| 0 <= i < r * width ==> dst@[i] == spec[i],
        decreases rows - r,
    {
        proof {
            lemma_mul_le(r as int + 1, rows as int, width as int);
            lemma_mul_le(r as int + 1, rows as int, pitch as int);
            lemma_mul_le(r as int, r as int + 1, width as int);
            lemma_mul_le(r as int, r as int + 1, pitch as int);
            assert((r + 1) * width == r * width + width) by (nonlinear_arith);
            assert((r + 1) * pitch == r * pitch + pitch) by (nonlinear_arith);
        }
        let at = r * width;
        let from = r * pitch + off;
        copy_bytes(dst, at, src.data, from, width);
        proof {
            assert forall|i: int| 0 <= i < (r + 1) * width implies dst@[i] == spec[i] by {
                if i >= at {
                    vstd::arithmetic::div_mod::lemma_fundamental_div_mod_converse(
                        i,
                        width as int,
                        r as int,
                        i - at,
                    );
                    assert(i < rows * width);
                }
            }
        }
        r += 1;
    }
    proof {
        assert(dst@ =~= spec);
    }
}

/// A kind of weight: how its shape and its bytes are cut for a shard.
pub trait WeightType {
    /// The layout that this value stands for.
    spec fn kind(&self) -> WeightKind;

    /// The layout that this value stands for.
    fn to_kind(&self) -> (k: WeightKind)
        ensures
            k == self.kind(),
    ;

    /// Fills `dst` with the bytes of the part of `src` that `dist` holds.
    fn move_data(&self, dist: Distribution, dst: &mut [u8], src: &RawTensor)
        requires
            shardable(self.kind(), dist, *src),
            old(dst)@.len() == shard_len(self.kind(), dist, *src),
        ensures
            final(dst)@ == materialized(
                self.kind(),
                dist,
                src.data@,
                src.shape@,
                src.dt.spec_nbytes() as int,
            ),
    ;

    /// Shape of the part of a weight of `shape` that `dist` holds.
    fn split_shape(&self, dist: Distribution, shape: &[usize]) -> (r: Vec<usize>)
        requires
            dist.valid(),
            1 <= shape@.len() <= 2,
        ensures
            r@.len() == shape@.len(),
            sizes_view(r@) == split_shape(self.kind(), dist, shape@),
    ;
}

impl WeightType for WeightKind {
    open spec fn kind(&self) -> WeightKind {
        *self
    }

    fn to_kind(&self) -> (k: WeightKind) {
        *self
    }

    fn move_data(&self, dist: Distribution, dst: &mut [u8], src: &RawTensor) {
        match self {
            WeightKind::AttnQKV(gqa) => move_qkv(*gqa, dist, dst, src),
            WeightKind::FfnGateUp => move_gate_up(dist, dst, src),
            WeightKind::ColumnParallel => move_column(dist, dst, src),
            WeightKind::RowParallel => move_row(dist, dst, src),
        }
    }

    fn split_shape(&self, dist: Distribution, shape: &[usize]) -> (r: Vec<usize>) {
        match self {
            WeightKind::RowParallel => split_second(dist, shape),
            _ => split_leading(dist, shape),
        }
    }
}

/// Fused query, key and value projection with `gqa` query heads per key head.
#[derive(Clone, Copy, Debug, PartialEq, Eq, Structural)]
pub struct AttnQKV(pub usize);

/// Fused gate and up projection of a feed-forward block.
#[derive(Clone, Copy, Debug, PartialEq, Eq, Structural)]
pub struct FfnGateUp;

/// A weight sharded along its leading axis.
#[derive(Clone, Copy, Debug, PartialEq, Eq, Structural)]
pub struct ColumnTPWeight;

/// A weight sharded along its second axis.
#[derive(Clone, Copy, Debug, PartialEq, Eq, Structural)]
pub struct RowTPWeight;

impl WeightType for AttnQKV {
    open spec fn kind(&self) -> WeightKind {
        WeightKind::AttnQKV(self.0)
    }

    fn to_kind(&self) -> (k: WeightKind) {
        WeightKind::AttnQKV(self.0)
    }

    fn move_data(&self, dist: Distribution, dst: &mut [u8], src: &RawTensor) {
        move_qkv(self.0, dist, dst, src)
    }

    fn split_shape(&self, dist: Distribution, shape: &[usize]) -> (r: Vec<usize>) {
        split_leading(dist, shape)
    }
}

impl WeightType for FfnGateUp {
    open spec fn kind(&self) -> WeightKind {
        WeightKind::FfnGateUp
    }

    fn to_kind(&self) -> (k: WeightKind) {
        WeightKind::FfnGateUp
    }

    fn move_data(&self, dist: Distribution, dst: &mut [u8], src: &RawTensor) {
        move_gate_up(dist, dst, src)
    }

    fn split_shape(&self, dist: Distribution, shape: &[usize]) -> (r: Vec<usize>) {
        split_leading(dist, shape)
    }
}

impl WeightType for ColumnTPWeight {
    open spec fn kind(&self) -> WeightKind {
        WeightKind::ColumnParallel
    }

    fn to_kind(&self) -> (k: WeightKind) {
        WeightKind::ColumnParallel
    }

    fn move_data(&self, dist: Distribution, dst: &mut [u8], src: &RawTensor) {
        move_column(dist, dst, src)
    }

    fn split_shape(&self, dist: Distribution, shape: &[usize]) -> (r: Vec<usize>) {
        split_leading(dist, shape)
    }
}

impl WeightType for RowTPWeight {
    open spec fn kind(&self) -> WeightKind {
        WeightKind::RowParallel
    }

    fn to_kind(&self) -> (k: WeightKind) {
        WeightKind::RowParallel
    }

    fn move_data(&self, dist: Distribution, dst: &mut [u8], src: &RawTensor) {
        move_row(dist, dst, src)
    }

    fn split_shape(&self, dist: Distribution, shape: &[usize]) -> (r: Vec<usize>) {
        split_second(dist, shape)
    }
}

/// What is done to a weight for one set of shards. Two actions are equal
/// exactly when their kinds and their shards are.
#[derive(Clone, Copy, Debug, PartialEq, Eq, Hash, Structural)]
pub struct TPAction {
    pub wt: WeightKind,
    pub dist: Distribution,
}

impl TPAction {
    /// The action that cuts a weight of kind `wt` for `dist`.
    pub fn new<WT: WeightType>(wt: WT, dist: Distribution) -> (r: TPAction)
        ensures
            r == (TPAction { wt: wt.kind(), dist }),
    {
        TPAction { wt: wt.to_kind(), dist }
    }
}

/// Why a network cannot be rewritten for a distribution.
#[derive(Clone, Copy, Debug, PartialEq, Eq, Structural)]
pub enum TPError {
    /// No rule says how the network is cut into more than one part.
    Unsupported,
}

/// A weight together with what tensor parallelism does to it, if anything.
#[derive(Clone, Debug)]
pub struct TPTensor<T> {
    pub act: Option<TPAction>,
    pub val: T,
}

impl<T> From<T> for TPTensor<T> {
    /// `value`, left whole.
    fn from(value: T) -> (r: TPTensor<T>) {
        TPTensor { act: None, val: value }
    }
}

impl<T> vstd::std_specs::convert::FromSpecImpl<T> for TPTensor<T> {
    open spec fn obeys_from_spec() -> bool {
        true
    }

    open spec fn from_spec(value: T) -> TPTensor<T> {
        TPTensor { act: None, val: value }
    }
}

/// A weight that tensor parallelism leaves whole.
pub fn whole<T>(value: T) -> (r: TPTensor<T>)
    ensures
        r == (TPTensor { act: None, val: value }),
{
    TPTensor::from(value)
}

} // verus!
