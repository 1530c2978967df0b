//! Arithmetic on lists of extents: products and sums that are checked
//! against the machine's range, and integer arguments read as extents.

use crate::arg::{ints_view, sizes_view, Arg, ArgV};
use crate::dim::{dims_view, Dim, DimV};
use crate::op::{concrete, OpError};
use vstd::prelude::*;

verus! {

/// Product of `vals`; one for the empty list.
pub open spec fn product(vals: Seq<int>) -> int
    decreases vals.len(),
{
    if vals.len() == 0 {
        1
    } else {
        product(vals.drop_last()) * vals.last()
    }
}

/// Sum of `vals`.
pub open spec fn sum(vals: Seq<int>) -> int
    decreases vals.len(),
{
    if vals.len() == 0 {
        0
    } else {
        sum(vals.drop_last()) + vals.last()
    }
}

/// A list with a zero has product zero.
pub proof fn lemma_product_zero(vals: Seq<int>, k: int)
    requires
        0 <= k < vals.len(),
        vals[k] == 0,
    ensures
        product(vals) == 0,
    decreases vals.len(),
{
    if k == vals.len() - 1 {
        assert(product(vals.drop_last()) * 0 == 0) by (nonlinear_arith);
    } else {
        lemma_product_zero(vals.drop_last(), k);
        assert(0 * vals.last() == 0) by (nonlinear_arith);
    }
}

/// The product of positive numbers is positive and at least the product of
/// any of its prefixes.
pub proof fn lemma_product_grows(vals: Seq<int>, n: int)
    requires
        0 <= n <= vals.len(),
        forall|i: int| 0 <= i < vals.len() ==> vals[i] >= 1,
    ensures
        1 <= product(vals.subrange(0, n)) <= product(vals),
    decreases vals.len() - n,
{
    if n == vals.len() {
        assert(vals.subrange(0, n) =~= vals);
        lemma_product_positive(vals);
    } else {
        lemma_product_grows(vals, n + 1);
        let longer = vals.subrange(0, n + 1);
        assert(longer.drop_last() =~= vals.subrange(0, n));
        lemma_product_positive(vals.subrange(0, n));
        assert(product(longer.drop_last()) <= product(longer.drop_last()) * longer.last())
            by (nonlinear_arith)
            requires
                product(longer.drop_last()) >= 1,
                longer.last() >= 1,
        ;
    }
}

/// The product of positive numbers is positive.
pub proof fn lemma_product_positive(vals: Seq<int>)
    requires
        forall|i: int| 0 <= i < vals.len() ==> vals[i] >= 1,
    ensures
        product(vals) >= 1,
    decreases vals.len(),
{
    if vals.len() > 0 {
        lemma_product_positive(vals.drop_last());
        assert(product(vals.drop_last()) * vals.last() >= 1) by (nonlinear_arith)
            requires
                product(vals.drop_last()) >= 1,
                vals.last() >= 1,
        ;
    }
}

/// The sum of non-negative numbers is at least the sum of any of its
/// prefixes.
pub proof fn lemma_sum_grows(vals: Seq<int>, n: int)
    requires
        0 <= n <= vals.len(),
        forall|i: int| 0 <= i < vals.len() ==> vals[i] >= 0,
    ensures
        0 <= sum(vals.subrange(0, n)) <= sum(vals),
    decreases vals.len() - n,
{
    if n == vals.len() {
        assert(vals.subrange(0, n) =~= vals);
        lemma_sum_nonnegative(vals);
    } else {
        lemma_sum_grows(vals, n + 1);
        let longer = vals.subrange(0, n + 1);
        assert(longer.drop_last() =~= vals.subrange(0, n));
        lemma_sum_nonnegative(vals.subrange(0, n));
    }
}

/// The sum of non-negative numbers is not negative.
pub proof fn lemma_sum_nonnegative(vals: Seq<int>)
    requires
        forall|i: int| 0 <= i < vals.len() ==> vals[i] >= 0,
    ensures
        sum(vals) >= 0,
    decreases vals.len(),
{
    if vals.len() > 0 {
        lemma_sum_nonnegative(vals.drop_last());
    }
}

/// The product of `vals`, if the machine can hold it.
pub fn product_of(vals: &[usize]) -> (r: Option<usize>)
    ensures
        match r {
            Some(p) => product(sizes_view(vals@)) == p,
            None => product(sizes_view(vals@)) > usize::MAX,
        },
{
    let ghost all = sizes_view(vals@);
    let mut i: usize = 0;
    while i < vals.len()
        invariant
            i <= vals.len(),
            all == sizes_view(vals@),
            forall|k: int| 0 <= k < i ==> all[k] >= 1,
        decreases vals.len() - i,
    {
        if vals[i] == 0 {
            proof {
                lemma_product_zero(all, i as int);
            }
            return Some(0);
        }
        i += 1;
    }
    let mut acc: usize = 1;
    let mut i: usize = 0;
    proof {
        assert(all.subrange(0, 0) =~= Seq::<int>::empty());
    }
    while i < vals.len()
        invariant
            i <= vals.len(),
            all == sizes_view(vals@),
            forall|k: int| 0 <= k < all.len() ==> all[k] >= 1,
            acc == product(all.subrange(0, i as int)),
        decreases vals.len() - i,
    {
        proof {
            assert(all.subrange(0, i + 1).drop_last() =~= all.subrange(0, i as int));
            assert(all.subrange(0, i + 1).last() == vals@[i as int]);
        }
        match acc.checked_mul(vals[i]) {
            Some(next) => {
                acc = next;
            },
            None => {
                proof {
                    lemma_product_grows(all, i + 1);
                }
                return None;
            },
        }
        i += 1;
    }
    proof {
        assert(all.subrange(0, i as int) =~= all);
    }
    Some(acc)
}

/// The sum of `vals`, if the machine can hold it.
pub fn sum_of(vals: &[usize]) -> (r: Option<usize>)
    ensures
        match r {
            Some(p) => sum(sizes_view(vals@)) == p,
            None => sum(sizes_view(vals@)) > usize::MAX,
        },
{
    let ghost all = sizes_view(vals@);
    let mut acc: usize = 0;
    let mut i: usize = 0;
    proof {
        assert(all.subrange(0, 0) =~= Seq::<int>::empty());
    }
    while i < vals.len()
        invariant
            i <= vals.len(),
            all == sizes_view(vals@),
            acc == sum(all.subrange(0, i as int)),
        decreases vals.len() - i,
    {
        proof {
            assert(all.subrange(0, i + 1).drop_last() =~= all.subrange(0, i as int));
            assert(all.subrange(0, i + 1).last() == vals@[i as int]);
        }
        match acc.checked_add(vals[i]) {
            Some(next) => {
                acc = next;
            },
            None => {
                proof {
                    lemma_sum_grows(all, i + 1);
                }
                return None;
            },
        }
        i += 1;
    }
    proof {
        assert(all.subrange(0, i as int) =~= all);
    }
    Some(acc)
}

/// Every one of `vals` is at least `least` and an extent the machine can
/// hold.
pub open spec fn all_sizes(vals: Seq<int>, least: int) -> bool {
    forall|i: int| 0 <= i < vals.len() ==> least <= #[trigger] vals[i] <= usize::MAX
}

/// `vals` as extents, if every one of them is at least `least` and fits.
pub fn sizes_from(vals: &Vec<i64>, least: i64) -> (r: Option<Vec<usize>>)
    requires
        least >= 0,
    ensures
        match r {
            Some(v) => all_sizes(ints_view(vals@), least as int) && sizes_view(v@) == ints_view(
                vals@,
            ),
            None => !all_sizes(ints_view(vals@), least as int),
        },
{
    let ghost all = ints_view(vals@);
    let mut out: Vec<usize> = Vec::new();
    let mut i: usize = 0;
    while i < vals.len()
        invariant
            i <= vals.len(),
            least >= 0,
            all == ints_view(vals@),
            out@.len() == i,
            forall|k: int| 0 <= k < i ==> least <= #[trigger] all[k] <= usize::MAX,
            forall|k: int| 0 <= k < i ==> out@[k] == all[k],
        decreases vals.len() - i,
    {
        let v = vals[i];
        if v < least || (v as u64) > (usize::MAX as u64) {
            assert(!(least <= all[i as int] <= usize::MAX));
            return None;
        }
        out.push(v as usize);
        i += 1;
    }
    proof {
        assert(sizes_view(out@) =~= all);
    }
    Some(out)
}

/// The extents of `dims`, if every one of them is concrete.
pub open spec fn all_concrete(dims: Seq<DimV>) -> Option<Seq<int>> {
    if forall|i: int| 0 <= i < dims.len() ==> (#[trigger] concrete(dims[i])) is Some {
        Some(Seq::new(dims.len(), |i: int| concrete(dims[i])->0))
    } else {
        None
    }
}

/// The extents of `dims`; an extent that is only a name is refused.
pub fn values_of(dims: &[Dim]) -> (r: Result<Vec<usize>, OpError>)
    ensures
        match r {
            Ok(v) => all_concrete(dims_view(dims@)) == Some(sizes_view(v@)),
            Err(e) => all_concrete(dims_view(dims@)) is None && e == OpError::ShapeError,
        },
{
    let ghost all = dims_view(dims@);
    let mut out: Vec<usize> = Vec::new();
    let mut i: usize = 0;
    while i < dims.len()
        invariant
            i <= dims.len(),
            all == dims_view(dims@),
            out@.len() == i,
            forall|k: int| 0 <= k < i ==> (#[trigger] concrete(all[k])) == Some(out@[k] as int),
        decreases dims.len() - i,
    {
        match dims[i].value() {
            Some(n) => {
                out.push(n);
            },
            None => {
                assert(concrete(all[i as int]) is None);
                return Err(OpError::ShapeError);
            },
        }
        i += 1;
    }
    proof {
        assert(all_concrete(all).unwrap() =~= sizes_view(out@));
    }
    Ok(out)
}

/// The shape of the concrete extents `vals`.
pub open spec fn int_dims(vals: Seq<int>) -> Seq<DimV> {
    Seq::new(vals.len(), |i: int| DimV::Int(vals[i]))
}

/// `shape` with the extents `from .. to` replaced by the concrete extents
/// `mid`.
pub fn splice(shape: &[Dim], from: usize, to: usize, mid: &[usize]) -> (r: Vec<Dim>)
    requires
        from <= to <= shape@.len(),
    ensures
        dims_view(r@) == dims_view(shape@).subrange(0, from as int) + int_dims(sizes_view(mid@))
            + dims_view(shape@).subrange(to as int, shape@.len() as int),
{
    let ghost want = dims_view(shape@).subrange(0, from as int) + int_dims(sizes_view(mid@))
        + dims_view(shape@).subrange(to as int, shape@.len() as int);
    let mut out: Vec<Dim> = Vec::new();
    let mut i: usize = 0;
    while i < from
        invariant
            i <= from <= to <= shape@.len(),
            out@.len() == i,
            forall|k: int| 0 <= k < i ==> (#[trigger] out@[k])@ == shape@[k]@,
        decreases from - i,
    {
        out.push(shape[i].duplicate());
        i += 1;
    }
    let mut j: usize = 0;
    while j < mid.len()
        invariant
            j <= mid.len(),
            from <= to <= shape@.len(),
            out@.len() == from + j,
            forall|k: int| 0 <= k < from ==> (#[trigger] out@[k])@ == shape@[k]@,
            forall|k: int| 0 <= k < j ==> (#[trigger] out@[from + k])@ == DimV::Int(mid@[k] as int),
        decreases mid.len() - j,
    {
        out.push(Dim::Int(mid[j]));
        j += 1;
    }
    let mut i: usize = to;
    while i < shape.len()
        invariant
            from <= to <= i <= shape@.len(),
            out@.len() == from + mid@.len() + (i - to),
            forall|k: int| 0 <= k < from ==> (#[trigger] out@[k])@ == shape@[k]@,
            forall|k: int|
                0 <= k < mid@.len() ==> (#[trigger] out@[from + k])@ == DimV::Int(mid@[k] as int),
            forall|k: int|
                0 <= k < i - to ==> (#[trigger] out@[from + mid@.len() + k])@ == shape@[to + k]@,
        decreases shape.len() - i,
    {
        out.push(shape[i].duplicate());
        i += 1;
    }
    proof {
        assert(dims_view(out@).len() == want.len());
        assert forall|k: int| 0 <= k < want.len() implies dims_view(out@)[k] == want[k] by {
            if k < from {
            } else if k < from + mid@.len() {
                assert(out@[from + (k - from)]@ == DimV::Int(mid@[k - from] as int));
            } else {
                assert(out@[from + mid@.len() + (k - from - mid@.len())]@ == shape@[to + (k - from
                    - mid@.len())]@);
            }
        }
        assert(dims_view(out@) =~= want);
    }
    out
}

/// The integer under `key` of a dictionary argument.
pub open spec fn int_entry(arg: Option<ArgV>, key: Seq<char>) -> Option<int> {
    match arg {
        Some(a) => match a.get(key) {
            Some(v) => v.as_int(),
            None => None,
        },
        None => None,
    }
}

/// The list of integers under `key` of a dictionary argument.
pub open spec fn ints_entry(arg: Option<ArgV>, key: Seq<char>) -> Option<Seq<int>> {
    match arg {
        Some(a) => match a.get(key) {
            Some(v) => v.as_ints(),
            None => None,
        },
        None => None,
    }
}

/// The integer under `key` of a dictionary argument.
pub fn read_int(args: Option<&Arg>, key: &str) -> (r: Option<i64>)
    ensures
        match r {
            Some(n) => int_entry(crate::op::arg_value(args), key@) == Some(n as int),
            None => int_entry(crate::op::arg_value(args), key@) is None,
        },
{
    match args {
        Some(a) => match a.get(key) {
            Some(v) => v.as_int(),
            None => None,
        },
        None => None,
    }
}

/// The list of integers under `key` of a dictionary argument.
pub fn read_ints(args: Option<&Arg>, key: &str) -> (r: Option<Vec<i64>>)
    ensures
        match r {
            Some(v) => ints_entry(crate::op::arg_value(args), key@) == Some(ints_view(v@)),
            None => ints_entry(crate::op::arg_value(args), key@) is None,
        },
{
    match args {
        Some(a) => match a.get(key) {
            Some(v) => v.as_ints(),
            None => None,
        },
        None => None,
    }
}

/// The argument is a dictionary whose keys are among `allowed`.
pub open spec fn dict_of(arg: Option<ArgV>, allowed: Seq<Seq<char>>) -> bool {
    match arg {
        Some(a) => a.dict_within(allowed),
        None => false,
    }
}

/// Whether the argument is a dictionary whose keys are among `allowed`.
pub fn is_dict_of(args: Option<&Arg>, allowed: &[&str]) -> (r: bool)
    ensures
        r == dict_of(crate::op::arg_value(args), crate::arg::texts(allowed@)),
{
    match args {
        Some(a) => a.dict_within(allowed),
        None => false,
    }
}

} // verus!
