//! Tensor metadata and the handles by which a graph refers to its tensors.

use crate::dim::{dims_view, Dim, DimV};
use crate::dtype::Dtype;
use vstd::prelude::*;

verus! {

/// Element type and shape of a tensor.
#[derive(Clone, Debug, PartialEq, Eq, Hash)]
pub struct TensorMeta {
    pub dt: Dtype,
    pub shape: Vec<Dim>,
}

/// Mathematical value of a [`TensorMeta`].
pub struct MetaV {
    pub dt: Dtype,
    pub shape: Seq<DimV>,
}

impl View for TensorMeta {
    type V = MetaV;

    open spec fn view(&self) -> MetaV {
        MetaV { dt: self.dt, shape: dims_view(self.shape@) }
    }
}

/// Views of a list of metas.
pub open spec fn metas_view(metas: Seq<TensorMeta>) -> Seq<MetaV> {
    Seq::new(metas.len(), |i: int| metas[i]@)
}

/// The shape whose extents are all concrete and given by `extents`.
pub open spec fn int_shape(extents: Seq<usize>) -> Seq<DimV> {
    Seq::new(extents.len(), |i: int| DimV::Int(extents[i] as int))
}

/// Copies a list of extents.
pub fn duplicate_dims(dims: &[Dim]) -> (r: Vec<Dim>)
    ensures
        dims_view(r@) == dims_view(dims@),
{
    let mut out: Vec<Dim> = Vec::new();
    let mut i: usize = 0;
    while i < dims.len()
        invariant
            i <= dims.len(),
            out@.len() == i,
            forall|k: int| 0 <= k < i ==> out@[k]@ == dims@[k]@,
        decreases dims.len() - i,
    {
        out.push(dims[i].duplicate());
        i += 1;
    }
    proof {
        assert(dims_view(out@) =~= dims_view(dims@));
    }
    out
}

/// Compares two lists of extents structurally.
pub fn same_dims(a: &[Dim], b: &[Dim]) -> (r: bool)
    ensures
        r == (dims_view(a@) == dims_view(b@)),
{
    if a.len() != b.len() {
        proof {
            assert(dims_view(a@).len() != dims_view(b@).len());
        }
        return false;
    }
    let mut i: usize = 0;
    while i < a.len()
        invariant
            i <= a.len(),
            a.len() == b.len(),
            forall|k: int| 0 <= k < i ==> a@[k]@ == b@[k]@,
        decreases a.len() - i,
    {
        if !a[i].same(&b[i]) {
            proof {
                assert(dims_view(a@)[i as int] != dims_view(b@)[i as int]);
            }
            return false;
        }
        i += 1;
    }
    proof {
        assert(dims_view(a@) =~= dims_view(b@));
    }
    true
}

/// Builds a shape of concrete extents.
pub fn dims_of(extents: &[usize]) -> (r: Vec<Dim>)
    ensures
        dims_view(r@) == int_shape(extents@),
{
    let mut out: Vec<Dim> = Vec::new();
    let mut i: usize = 0;
    while i < extents.len()
        invariant
            i <= extents.len(),
            out@.len() == i,
            forall|k: int| 0 <= k < i ==> out@[k]@ == DimV::Int(extents@[k] as int),
        decreases extents.len() - i,
    {
        out.push(Dim::Int(extents[i]));
        i += 1;
    }
    proof {
        assert(dims_view(out@) =~= int_shape(extents@));
    }
    out
}

impl TensorMeta {
    /// A meta of element type `dt` and shape `shape`.
    pub fn new(dt: Dtype, shape: Vec<Dim>) -> (r: TensorMeta)
        ensures
            r@ == (MetaV { dt, shape: dims_view(shape@) }),
    {
        TensorMeta { dt, shape }
    }

    /// Number of axes.
    pub fn rank(&self) -> (r: usize)
        ensures
            r == self@.shape.len(),
    {
        self.shape.len()
    }

    /// A copy with the same value.
    pub fn duplicate(&self) -> (r: TensorMeta)
        ensures
            r@ == self@,
    {
        TensorMeta { dt: self.dt, shape: duplicate_dims(self.shape.as_slice()) }
    }

    /// Structural comparison: same element type, same extents.
    pub fn same(&self, other: &TensorMeta) -> (r: bool)
        ensures
            r == (self@ == other@),
    {
        self.dt == other.dt && same_dims(self.shape.as_slice(), other.shape.as_slice())
    }
}

/// Handle to a tensor of a graph: its identifier in that graph and its meta.
#[derive(Clone, Debug, PartialEq, Eq, Hash)]
pub struct Tensor {
    id: usize,
    meta: TensorMeta,
}

/// Mathematical value of a [`Tensor`].
pub struct TensorV {
    pub id: int,
    pub meta: MetaV,
}

impl View for Tensor {
    type V = TensorV;

    closed spec fn view(&self) -> TensorV {
        TensorV { id: self.id as int, meta: self.meta@ }
    }
}

/// Views of a list of handles.
pub open spec fn tensors_view(tensors: Seq<Tensor>) -> Seq<TensorV> {
    Seq::new(tensors.len(), |i: int| tensors[i]@)
}

/// Metas of a list of handle values.
pub open spec fn metas_of(tensors: Seq<TensorV>) -> Seq<MetaV> {
    Seq::new(tensors.len(), |i: int| tensors[i].meta)
}

impl Tensor {
    pub(crate) fn new(id: usize, meta: TensorMeta) -> (r: Tensor)
        ensures
            r@ == (TensorV { id: id as int, meta: meta@ }),
    {
        Tensor { id, meta }
    }

    /// Identifier of the tensor within its graph.
    pub fn id(&self) -> (r: usize)
        ensures
            r == self@.id,
    {
        self.id
    }

    /// Element type and shape.
    pub fn meta(&self) -> (r: &TensorMeta)
        ensures
            r@ == self@.meta,
    {
        &self.meta
    }

    /// Element type.
    pub fn dt(&self) -> (r: Dtype)
        ensures
            r == self@.meta.dt,
    {
        self.meta.dt
    }

    /// Extents.
    pub fn shape(&self) -> (r: &[Dim])
        ensures
            dims_view(r@) == self@.meta.shape,
    {
        self.meta.shape.as_slice()
    }

    /// Another handle to the same tensor.
    pub fn duplicate(&self) -> (r: Tensor)
        ensures
            r@ == self@,
    {
        Tensor { id: self.id, meta: self.meta.duplicate() }
    }
}

/// The extent `d` as a number; zero where it is only a name.
pub open spec fn extent(d: DimV) -> int {
    match d {
        DimV::Int(n) => n,
        DimV::Sym(_) => 0,
    }
}

impl Tensor {
    /// Number of axes.
    pub fn rank(&self) -> (r: usize)
        ensures
            r == self@.meta.shape.len(),
    {
        self.meta.shape.len()
    }

    /// The extent of axis `i` as a number; zero where it is only a name.
    pub fn extent_at(&self, i: usize) -> (r: usize)
        requires
            i < self@.meta.shape.len(),
        ensures
            r == extent(self@.meta.shape[i as int]),
    {
        match self.meta.shape[i].value() {
            Some(n) => n,
            None => 0,
        }
    }

    /// The extent of the last axis as a number; zero where it is only a
    /// name.
    pub fn last_extent(&self) -> (r: usize)
        requires
            self@.meta.shape.len() >= 1,
        ensures
            r == extent(self@.meta.shape.last()),
    {
        self.extent_at(self.meta.shape.len() - 1)
    }
}

/// The list of the one handle `a`.
pub fn list1(a: Tensor) -> (r: Vec<Tensor>)
    ensures
        tensors_view(r@) == seq![a@],
{
    let mut v: Vec<Tensor> = Vec::new();
    v.push(a);
    proof {
        assert(tensors_view(v@) =~= seq![a@]);
    }
    v
}

/// The list of the handles `a` and `b`.
pub fn list2(a: Tensor, b: Tensor) -> (r: Vec<Tensor>)
    ensures
        tensors_view(r@) == seq![a@, b@],
{
    let mut v: Vec<Tensor> = Vec::new();
    v.push(a);
    v.push(b);
    proof {
        assert(tensors_view(v@) =~= seq![a@, b@]);
    }
    v
}

/// The list of the handles `a`, `b` and `c`.
pub fn list3(a: Tensor, b: Tensor, c: Tensor) -> (r: Vec<Tensor>)
    ensures
        tensors_view(r@) == seq![a@, b@, c@],
{
    let mut v: Vec<Tensor> = Vec::new();
    v.push(a);
    v.push(b);
    v.push(c);
    proof {
        assert(tensors_view(v@) =~= seq![a@, b@, c@]);
    }
    v
}

} // verus!
