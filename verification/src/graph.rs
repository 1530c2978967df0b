//! The graph under construction: an append-only list of operator calls over
//! a table of tensors, with the bindings that cross its boundary.

use crate::arg::{arg_view, Arg, ArgV};
use crate::tensor::{metas_view, tensors_view, MetaV, Tensor, TensorMeta, TensorV};
use vstd::prelude::*;

verus! {

/// Where a tensor of the graph comes from.
#[derive(Clone, Copy, Debug, PartialEq, Eq, Structural)]
pub enum Producer {
    /// The graph input of that position.
    Input(usize),
    /// The binding of that position among the loaded externals.
    External(usize),
    /// The output of that slot of the node of that position.
    Node(usize, usize),
}

/// Mathematical value of a [`Producer`].
pub enum Origin {
    Input(int),
    External(int),
    Node(int, int),
}

impl View for Producer {
    type V = Origin;

    open spec fn view(&self) -> Origin {
        match self {
            Producer::Input(k) => Origin::Input(*k as int),
            Producer::External(e) => Origin::External(*e as int),
            Producer::Node(j, k) => Origin::Node(*j as int, *k as int),
        }
    }
}

/// One operator call.
#[derive(Debug)]
pub struct Node {
    /// Fully qualified name.
    pub name: String,
    /// Name of the operator.
    pub op: String,
    pub inputs: Vec<Tensor>,
    pub arg: Option<Arg>,
    pub outputs: Vec<Tensor>,
}

/// A tensor whose payload lives outside the graph.
#[derive(Debug)]
pub struct External<T> {
    /// Fully qualified name.
    pub name: String,
    pub tensor: Tensor,
    pub item: T,
}

/// One entry of the tensor table.
#[derive(Debug)]
pub struct Slot {
    pub meta: TensorMeta,
    pub from: Producer,
}

/// Mathematical value of a [`Node`].
pub struct NodeV {
    pub name: Seq<char>,
    pub op: Seq<char>,
    pub inputs: Seq<TensorV>,
    pub arg: Option<ArgV>,
    pub outputs: Seq<TensorV>,
}

/// Mathematical value of an [`External`].
pub struct ExternalV<T> {
    pub name: Seq<char>,
    pub tensor: TensorV,
    pub item: T,
}

/// Mathematical value of a [`Slot`].
pub struct SlotV {
    pub meta: MetaV,
    pub from: Origin,
}

/// Mathematical value of an [`NNGraph`].
pub struct GraphV<T> {
    pub nodes: Seq<NodeV>,
    pub slots: Seq<SlotV>,
    pub inputs: Seq<TensorV>,
    pub externals_in: Seq<ExternalV<T>>,
    pub externals_out: Seq<ExternalV<T>>,
    pub outputs: Seq<TensorV>,
}

impl View for Node {
    type V = NodeV;

    open spec fn view(&self) -> NodeV {
        NodeV {
            name: self.name@,
            op: self.op@,
            inputs: tensors_view(self.inputs@),
            arg: arg_view(self.arg),
            outputs: tensors_view(self.outputs@),
        }
    }
}

impl<T> View for External<T> {
    type V = ExternalV<T>;

    open spec fn view(&self) -> ExternalV<T> {
        ExternalV { name: self.name@, tensor: self.tensor@, item: self.item }
    }
}

impl View for Slot {
    type V = SlotV;

    open spec fn view(&self) -> SlotV {
        SlotV { meta: self.meta@, from: self.from@ }
    }
}

impl<T> GraphV<T> {
    /// The graph without tensors or nodes.
    pub open spec fn empty() -> GraphV<T> {
        GraphV {
            nodes: Seq::empty(),
            slots: Seq::empty(),
            inputs: Seq::empty(),
            externals_in: Seq::empty(),
            externals_out: Seq::empty(),
            outputs: Seq::empty(),
        }
    }

    /// `t` is a tensor of this graph, with the meta that the graph has for it.
    pub open spec fn owns(self, t: TensorV) -> bool {
        0 <= t.id < self.slots.len() && self.slots[t.id].meta == t.meta
    }

    /// Every handle of `ts` is a tensor of this graph.
    pub open spec fn owns_all(self, ts: Seq<TensorV>) -> bool {
        forall|i: int| 0 <= i < ts.len() ==> self.owns(#[trigger] ts[i])
    }

    /// The handles that the next allocation of `metas` yields.
    pub open spec fn fresh(self, metas: Seq<MetaV>) -> Seq<TensorV> {
        Seq::new(metas.len(), |k: int| TensorV { id: self.slots.len() + k, meta: metas[k] })
    }

    /// The graph after one more input of meta `meta`.
    pub open spec fn with_input(self, meta: MetaV) -> GraphV<T> {
        GraphV {
            slots: self.slots.push(
                SlotV { meta, from: Origin::Input(self.inputs.len() as int) },
            ),
            inputs: self.inputs.push(TensorV { id: self.slots.len() as int, meta }),
            ..self
        }
    }

    /// The graph after binding `item` as a loaded external called `name`.
    pub open spec fn with_external_in(self, name: Seq<char>, meta: MetaV, item: T) -> GraphV<T> {
        GraphV {
            slots: self.slots.push(
                SlotV { meta, from: Origin::External(self.externals_in.len() as int) },
            ),
            externals_in: self.externals_in.push(
                ExternalV { name, tensor: TensorV { id: self.slots.len() as int, meta }, item },
            ),
            ..self
        }
    }

    /// The graph after binding `tensor` to `item` as a saved external called `name`.
    pub open spec fn with_external_out(self, name: Seq<char>, tensor: TensorV, item: T) -> GraphV<
        T,
    > {
        GraphV { externals_out: self.externals_out.push(ExternalV { name, tensor, item }), ..self }
    }

    /// The graph after one more node that produces tensors of `metas`.
    pub open spec fn with_node(
        self,
        name: Seq<char>,
        op: Seq<char>,
        inputs: Seq<TensorV>,
        arg: Option<ArgV>,
        metas: Seq<MetaV>,
    ) -> GraphV<T> {
        GraphV {
            nodes: self.nodes.push(NodeV { name, op, inputs, arg, outputs: self.fresh(metas) }),
            slots: self.slots + Seq::new(
                metas.len(),
                |k: int|
                    SlotV {
                        meta: metas[k],
                        from: Origin::Node(self.nodes.len() as int, k),
                    },
            ),
            ..self
        }
    }

    /// The graph with `outputs` as its results.
    pub open spec fn with_outputs(self, outputs: Seq<TensorV>) -> GraphV<T> {
        GraphV { outputs, ..self }
    }

    /// The producer that the table names for tensor `id` exists and names
    /// `id` as what it produces.
    pub open spec fn origin_ok(self, id: int) -> bool {
        match self.slots[id].from {
            Origin::Input(k) => 0 <= k < self.inputs.len() && self.inputs[k].id == id,
            Origin::External(e) => 0 <= e < self.externals_in.len()
                && self.externals_in[e].tensor.id == id,
            Origin::Node(j, k) => 0 <= j < self.nodes.len() && 0 <= k
                < self.nodes[j].outputs.len() && self.nodes[j].outputs[k].id == id,
        }
    }

    /// Input `k` is a tensor of the graph, produced as input `k`.
    pub open spec fn input_ok(self, k: int) -> bool {
        self.owns(self.inputs[k]) && self.slots[self.inputs[k].id].from == Origin::Input(k)
    }

    /// Loaded external `e` is a tensor of the graph, produced as external `e`.
    pub open spec fn external_in_ok(self, e: int) -> bool {
        self.owns(self.externals_in[e].tensor) && self.slots[self.externals_in[e].tensor.id].from
            == Origin::External(e)
    }

    /// Node `j` reads tensors of the graph that no later node produces, and
    /// produces tensors that the table attributes to it.
    pub open spec fn node_wf(self, j: int) -> bool {
        let node = self.nodes[j];
        &&& forall|i: int|
            0 <= i < node.inputs.len() ==> self.owns(#[trigger] node.inputs[i]) && (
            self.slots[node.inputs[i].id].from matches Origin::Node(p, _) ==> p < j)
        &&& forall|k: int|
            0 <= k < node.outputs.len() ==> self.owns(#[trigger] node.outputs[k])
                && self.slots[node.outputs[k].id].from == Origin::Node(j, k)
    }

    /// The invariant of a graph under construction.
    pub open spec fn wf(self) -> bool {
        &&& forall|id: int| 0 <= id < self.slots.len() ==> #[trigger] self.origin_ok(id)
        &&& forall|k: int| 0 <= k < self.inputs.len() ==> #[trigger] self.input_ok(k)
        &&& forall|e: int| 0 <= e < self.externals_in.len() ==> #[trigger] self.external_in_ok(e)
        &&& forall|e: int|
            0 <= e < self.externals_out.len() ==> self.owns(
                (#[trigger] self.externals_out[e]).tensor,
            )
        &&& self.owns_all(self.outputs)
        &&& forall|j: int| 0 <= j < self.nodes.len() ==> #[trigger] self.node_wf(j)
    }

    /// `later` continues this graph: everything recorded here is still
    /// there, at the same place.
    pub open spec fn extended_by(self, later: GraphV<T>) -> bool {
        &&& self.nodes.is_prefix_of(later.nodes)
        &&& self.slots.is_prefix_of(later.slots)
        &&& self.externals_in.is_prefix_of(later.externals_in)
        &&& self.externals_out.is_prefix_of(later.externals_out)
        &&& self.inputs == later.inputs
    }
}

/// Views of a list of nodes.
pub open spec fn nodes_view(nodes: Seq<Node>) -> Seq<NodeV> {
    Seq::new(nodes.len(), |i: int| nodes[i]@)
}

/// Views of a list of externals.
pub open spec fn externals_view<T>(externals: Seq<External<T>>) -> Seq<ExternalV<T>> {
    Seq::new(externals.len(), |i: int| externals[i]@)
}

/// Views of a tensor table.
pub open spec fn slots_view(slots: Seq<Slot>) -> Seq<SlotV> {
    Seq::new(slots.len(), |i: int| slots[i]@)
}

/// A computation graph: nodes in the order of their calls, the table of
/// all tensors, and the bindings that cross the boundary. Once built, a
/// graph can be read but not changed.
#[derive(Debug)]
pub struct NNGraph<T> {
    nodes: Vec<Node>,
    slots: Vec<Slot>,
    inputs: Vec<Tensor>,
    externals_in: Vec<External<T>>,
    externals_out: Vec<External<T>>,
    outputs: Vec<Tensor>,
}

impl<T> View for NNGraph<T> {
    type V = GraphV<T>;

    closed spec fn view(&self) -> GraphV<T> {
        GraphV {
            nodes: nodes_view(self.nodes@),
            slots: slots_view(self.slots@),
            inputs: tensors_view(self.inputs@),
            externals_in: externals_view(self.externals_in@),
            externals_out: externals_view(self.externals_out@),
            outputs: tensors_view(self.outputs@),
        }
    }
}

impl<T> NNGraph<T> {
    /// The nodes, in the order of their calls.
    pub fn nodes(&self) -> (r: &[Node])
        ensures
            nodes_view(r@) == self@.nodes,
    {
        self.nodes.as_slice()
    }

    /// The table of all tensors, by identifier.
    pub fn slots(&self) -> (r: &[Slot])
        ensures
            slots_view(r@) == self@.slots,
    {
        self.slots.as_slice()
    }

    /// The inputs of the graph.
    pub fn inputs(&self) -> (r: &[Tensor])
        ensures
            tensors_view(r@) == self@.inputs,
    {
        self.inputs.as_slice()
    }

    /// The externals that the graph loads.
    pub fn externals_in(&self) -> (r: &[External<T>])
        ensures
            externals_view(r@) == self@.externals_in,
    {
        self.externals_in.as_slice()
    }

    /// The externals that the graph saves.
    pub fn externals_out(&self) -> (r: &[External<T>])
        ensures
            externals_view(r@) == self@.externals_out,
    {
        self.externals_out.as_slice()
    }

    /// The results of the graph.
    pub fn outputs(&self) -> (r: &[Tensor])
        ensures
            tensors_view(r@) == self@.outputs,
    {
        self.outputs.as_slice()
    }

    /// The graph without tensors or nodes.
    pub(crate) fn new() -> (g: NNGraph<T>)
        ensures
            g@ == GraphV::<T>::empty(),
            g@.wf(),
    {
        let g = NNGraph {
            nodes: Vec::new(),
            slots: Vec::new(),
            inputs: Vec::new(),
            externals_in: Vec::new(),
            externals_out: Vec::new(),
            outputs: Vec::new(),
        };
        proof {
            assert(g@.nodes =~= Seq::<NodeV>::empty());
            assert(g@.slots =~= Seq::<SlotV>::empty());
            assert(g@.inputs =~= Seq::<TensorV>::empty());
            assert(g@.externals_in =~= Seq::<ExternalV<T>>::empty());
            assert(g@.externals_out =~= Seq::<ExternalV<T>>::empty());
            assert(g@.outputs =~= Seq::<TensorV>::empty());
        }
        g
    }

    /// Whether `t` is a tensor of this graph, with the meta that the graph
    /// has for it.
    pub fn owns(&self, t: &Tensor) -> (r: bool)
        ensures
            r == self@.owns(t@),
    {
        let id = t.id();
        if id >= self.slots.len() {
            return false;
        }
        assert(self@.slots[id as int] == self.slots@[id as int]@);
        self.slots[id].meta.same(t.meta())
    }

    /// Allocates a graph input of meta `meta`.
    pub(crate) fn add_input(&mut self, meta: TensorMeta) -> (t: Tensor)
        requires
            old(self)@.wf(),
        ensures
            final(self)@ == old(self)@.with_input(meta@),
            final(self)@.wf(),
            t@ == (TensorV { id: old(self)@.slots.len() as int, meta: meta@ }),
    {
        let id = self.slots.len();
        let k = self.inputs.len();
        let t = Tensor::new(id, meta.duplicate());
        self.inputs.push(Tensor::new(id, meta.duplicate()));
        self.slots.push(Slot { meta, from: Producer::Input(k) });
        proof {
            let g = old(self)@;
            let h = g.with_input(meta@);
            assert(self@.slots =~= h.slots);
            assert(self@.inputs =~= h.inputs);
            lemma_with_input_wf(g, meta@);
        }
        t
    }

    /// Allocates a tensor of meta `meta` bound to `item` under `name`.
    pub(crate) fn load_external(&mut self, name: String, meta: TensorMeta, item: T) -> (t: Tensor)
        requires
            old(self)@.wf(),
        ensures
            final(self)@ == old(self)@.with_external_in(name@, meta@, item),
            final(self)@.wf(),
            t@ == (TensorV { id: old(self)@.slots.len() as int, meta: meta@ }),
    {
        let id = self.slots.len();
        let e = self.externals_in.len();
        let t = Tensor::new(id, meta.duplicate());
        self.externals_in.push(External { name, tensor: Tensor::new(id, meta.duplicate()), item });
        self.slots.push(Slot { meta, from: Producer::External(e) });
        proof {
            let g = old(self)@;
            let h = g.with_external_in(name@, meta@, item);
            assert(self@.slots =~= h.slots);
            assert(self@.externals_in =~= h.externals_in);
            lemma_with_external_in_wf(g, name@, meta@, item);
        }
        t
    }

    /// Binds `tensor` to `item` under `name` as a result kept outside.
    pub(crate) fn save_external(&mut self, name: String, tensor: Tensor, item: T)
        requires
            old(self)@.wf(),
            old(self)@.owns(tensor@),
        ensures
            final(self)@ == old(self)@.with_external_out(name@, tensor@, item),
            final(self)@.wf(),
    {
        self.externals_out.push(External { name, tensor, item });
        proof {
            let g = old(self)@;
            let h = g.with_external_out(name@, tensor@, item);
            assert(self@.externals_out =~= h.externals_out);
            lemma_with_external_out_wf(g, name@, tensor@, item);
        }
    }

    /// Appends the node `name`, a call of `op` on `inputs` with `arg` whose
    /// rule gave `metas`, and returns handles to what it produces.
    pub(crate) fn push_node(
        &mut self,
        name: String,
        op: String,
        inputs: Vec<Tensor>,
        arg: Option<Arg>,
        metas: Vec<TensorMeta>,
    ) -> (outs: Vec<Tensor>)
        requires
            old(self)@.wf(),
            old(self)@.owns_all(tensors_view(inputs@)),
        ensures
            final(self)@ == old(self)@.with_node(
                name@,
                op@,
                tensors_view(inputs@),
                arg_view(arg),
                metas_view(metas@),
            ),
            final(self)@.wf(),
            tensors_view(outs@) == old(self)@.fresh(metas_view(metas@)),
    {
        let j = self.nodes.len();
        let base = self.slots.len();
        let ghost g = old(self)@;
        let ghost ms = metas_view(metas@);
        let mut outs: Vec<Tensor> = Vec::new();
        let mut kept: Vec<Tensor> = Vec::new();
        let mut k: usize = 0;
        while k < metas.len()
            invariant
                k <= metas.len(),
                ms == metas_view(metas@),
                base == g.slots.len(),
                base == old(self).slots@.len(),
                g == old(self)@,
                j == g.nodes.len(),
                outs@.len() == k,
                kept@.len() == k,
                self.slots@.len() == base + k,
                self.nodes == old(self).nodes,
                self.inputs == old(self).inputs,
                self.externals_in == old(self).externals_in,
                self.externals_out == old(self).externals_out,
                self.outputs == old(self).outputs,
                forall|i: int| 0 <= i < base ==> self.slots@[i] == old(self).slots@[i],
                forall|i: int|
                    0 <= i < k ==> (#[trigger] self.slots@[base + i])@ == (SlotV {
                        meta: ms[i],
                        from: Origin::Node(j as int, i),
                    }),
                forall|i: int| 0 <= i < k ==> (#[trigger] outs@[i])@ == g.fresh(ms)[i],
                forall|i: int| 0 <= i < k ==> (#[trigger] kept@[i])@ == g.fresh(ms)[i],
            decreases metas.len() - k,
        {
            let id = self.slots.len();
            outs.push(Tensor::new(id, metas[k].duplicate()));
            kept.push(Tensor::new(id, metas[k].duplicate()));
            self.slots.push(Slot { meta: metas[k].duplicate(), from: Producer::Node(j, k) });
            k += 1;
        }
        self.nodes.push(Node { name, op, inputs, arg, outputs: kept });
        proof {
            let h = g.with_node(name@, op@, tensors_view(inputs@), arg_view(arg), ms);
            assert(tensors_view(kept@) =~= g.fresh(ms));
            assert(tensors_view(outs@) =~= g.fresh(ms));
            assert(self@.nodes =~= h.nodes);
            assert forall|i: int| 0 <= i < h.slots.len() implies self@.slots[i] == h.slots[i] by {
                if i >= base {
                    assert(self.slots@[base + (i - base)]@ == h.slots[i]);
                }
            }
            assert(self@.slots =~= h.slots);
            lemma_with_node_wf(g, name@, op@, tensors_view(inputs@), arg_view(arg), ms);
        }
        outs
    }

    /// Declares `outputs` the results of the graph.
    pub(crate) fn into_graph(self, outputs: Vec<Tensor>) -> (g: NNGraph<T>)
        requires
            self@.wf(),
            self@.owns_all(tensors_view(outputs@)),
        ensures
            g@ == self@.with_outputs(tensors_view(outputs@)),
            g@.wf(),
    {
        let mut g = self;
        g.outputs = outputs;
        proof {
            lemma_with_outputs_wf(self@, tensors_view(outputs@));
        }
        g
    }
}

/// Declaring results that are tensors of the graph keeps the invariant.
pub proof fn lemma_with_outputs_wf<T>(g: GraphV<T>, outputs: Seq<TensorV>)
    requires
        g.wf(),
        g.owns_all(outputs),
    ensures
        g.with_outputs(outputs).wf(),
{
    let h = g.with_outputs(outputs);
    assert forall|id: int| 0 <= id < h.slots.len() implies #[trigger] h.origin_ok(id) by {
        assert(g.origin_ok(id));
    }
    assert forall|k: int| 0 <= k < h.inputs.len() implies #[trigger] h.input_ok(k) by {
        assert(g.input_ok(k));
    }
    assert forall|e: int| 0 <= e < h.externals_in.len() implies #[trigger] h.external_in_ok(e) by {
        assert(g.external_in_ok(e));
    }
    assert forall|j: int| 0 <= j < h.nodes.len() implies #[trigger] h.node_wf(j) by {
        assert(g.node_wf(j));
    }
}

/// Adding an input keeps the invariant.
pub proof fn lemma_with_input_wf<T>(g: GraphV<T>, meta: MetaV)
    requires
        g.wf(),
    ensures
        g.with_input(meta).wf(),
        g.with_input(meta).owns(TensorV { id: g.slots.len() as int, meta }),
        forall|t: TensorV| g.owns(t) ==> g.with_input(meta).owns(t),
{
    let h = g.with_input(meta);
    assert forall|id: int| 0 <= id < h.slots.len() implies #[trigger] h.origin_ok(id) by {
        if id < g.slots.len() {
            assert(g.origin_ok(id));
        }
    }
    assert forall|k: int| 0 <= k < h.inputs.len() implies #[trigger] h.input_ok(k) by {
        if k < g.inputs.len() {
            assert(g.input_ok(k));
        }
    }
    assert forall|e: int| 0 <= e < h.externals_in.len() implies #[trigger] h.external_in_ok(e) by {
        assert(g.external_in_ok(e));
    }
    assert forall|j: int| 0 <= j < h.nodes.len() implies #[trigger] h.node_wf(j) by {
        assert(g.node_wf(j));
    }
}

/// Loading an external keeps the invariant.
pub proof fn lemma_with_external_in_wf<T>(g: GraphV<T>, name: Seq<char>, meta: MetaV, item: T)
    requires
        g.wf(),
    ensures
        g.with_external_in(name, meta, item).wf(),
        g.with_external_in(name, meta, item).owns(TensorV { id: g.slots.len() as int, meta }),
        g.extended_by(g.with_external_in(name, meta, item)),
        forall|t: TensorV| g.owns(t) ==> g.with_external_in(name, meta, item).owns(t),
{
    let h = g.with_external_in(name, meta, item);
    assert forall|id: int| 0 <= id < h.slots.len() implies #[trigger] h.origin_ok(id) by {
        if id < g.slots.len() {
            assert(g.origin_ok(id));
        }
    }
    assert forall|k: int| 0 <= k < h.inputs.len() implies #[trigger] h.input_ok(k) by {
        assert(g.input_ok(k));
    }
    assert forall|e: int| 0 <= e < h.externals_in.len() implies #[trigger] h.external_in_ok(e) by {
        if e < g.externals_in.len() {
            assert(g.external_in_ok(e));
        }
    }
    assert forall|j: int| 0 <= j < h.nodes.len() implies #[trigger] h.node_wf(j) by {
        assert(g.node_wf(j));
    }
}

/// Saving an external keeps the invariant.
pub proof fn lemma_with_external_out_wf<T>(g: GraphV<T>, name: Seq<char>, tensor: TensorV, item: T)
    requires
        g.wf(),
        g.owns(tensor),
    ensures
        g.with_external_out(name, tensor, item).wf(),
        g.extended_by(g.with_external_out(name, tensor, item)),
        forall|t: TensorV| g.owns(t) ==> g.with_external_out(name, tensor, item).owns(t),
{
    let h = g.with_external_out(name, tensor, item);
    assert forall|id: int| 0 <= id < h.slots.len() implies #[trigger] h.origin_ok(id) by {
        assert(g.origin_ok(id));
    }
    assert forall|k: int| 0 <= k < h.inputs.len() implies #[trigger] h.input_ok(k) by {
        assert(g.input_ok(k));
    }
    assert forall|e: int| 0 <= e < h.externals_in.len() implies #[trigger] h.external_in_ok(e) by {
        assert(g.external_in_ok(e));
    }
    assert forall|j: int| 0 <= j < h.nodes.len() implies #[trigger] h.node_wf(j) by {
        assert(g.node_wf(j));
    }
}

/// Appending a node that reads tensors of the graph keeps the invariant, and
/// the tensors it produces are new.
pub proof fn lemma_with_node_wf<T>(
    g: GraphV<T>,
    name: Seq<char>,
    op: Seq<char>,
    inputs: Seq<TensorV>,
    arg: Option<ArgV>,
    metas: Seq<MetaV>,
)
    requires
        g.wf(),
        g.owns_all(inputs),
    ensures
        g.with_node(name, op, inputs, arg, metas).wf(),
        g.with_node(name, op, inputs, arg, metas).owns_all(g.fresh(metas)),
        g.extended_by(g.with_node(name, op, inputs, arg, metas)),
        forall|t: TensorV| g.owns(t) ==> g.with_node(name, op, inputs, arg, metas).owns(t),
        forall|k: int| 0 <= k < metas.len() ==> !g.owns(#[trigger] g.fresh(metas)[k]),
{
    let h = g.with_node(name, op, inputs, arg, metas);
    let n = g.nodes.len() as int;
    assert forall|id: int| 0 <= id < h.slots.len() implies #[trigger] h.origin_ok(id) by {
        if id < g.slots.len() {
            assert(g.origin_ok(id));
        }
    }
    assert forall|k: int| 0 <= k < h.inputs.len() implies #[trigger] h.input_ok(k) by {
        assert(g.input_ok(k));
    }
    assert forall|e: int| 0 <= e < h.externals_in.len() implies #[trigger] h.external_in_ok(e) by {
        assert(g.external_in_ok(e));
    }
    assert forall|j: int| 0 <= j < h.nodes.len() implies #[trigger] h.node_wf(j) by {
        if j < n {
            assert(g.node_wf(j));
            assert(h.nodes[j] == g.nodes[j]);
        } else {
            let node = h.nodes[j];
            assert forall|i: int| 0 <= i < node.inputs.len() implies h.owns(
                #[trigger] node.inputs[i],
            ) && (h.slots[node.inputs[i].id].from matches Origin::Node(p, _) ==> p < j) by {
                assert(g.owns(inputs[i]));
                assert(g.origin_ok(inputs[i].id));
            }
        }
    }
}

/// Every input of a node exists before the node runs and is what its
/// producer made: it is a graph input, a loaded external, or an output of an
/// earlier node, and its meta is the producer's.
pub proof fn lemma_inputs_come_first<T>(g: GraphV<T>, i: int, k: int)
    requires
        g.wf(),
        0 <= i < g.nodes.len(),
        0 <= k < g.nodes[i].inputs.len(),
    ensures
        ({
            let x = g.nodes[i].inputs[k];
            &&& g.owns(x)
            &&& match g.slots[x.id].from {
                Origin::Input(n) => 0 <= n < g.inputs.len() && g.inputs[n] == x,
                Origin::External(e) => 0 <= e < g.externals_in.len() && g.externals_in[e].tensor
                    == x,
                Origin::Node(j, s) => 0 <= j < i && 0 <= s < g.nodes[j].outputs.len()
                    && g.nodes[j].outputs[s] == x,
            }
        }),
{
    let x = g.nodes[i].inputs[k];
    assert(g.node_wf(i));
    assert(g.owns(x));
    assert(g.origin_ok(x.id));
    match g.slots[x.id].from {
        Origin::Input(n) => {
            assert(g.input_ok(n));
        },
        Origin::External(e) => {
            assert(g.external_in_ok(e));
        },
        Origin::Node(j, s) => {
            assert(g.node_wf(j));
            assert(g.owns(g.nodes[j].outputs[s]));
        },
    }
}

/// What a node produces is new: no output of a node is one of its inputs,
/// and no two outputs of the graph's nodes are the same tensor.
pub proof fn lemma_outputs_are_fresh<T>(g: GraphV<T>, i: int, s: int)
    requires
        g.wf(),
        0 <= i < g.nodes.len(),
        0 <= s < g.nodes[i].outputs.len(),
    ensures
        forall|k: int|
            0 <= k < g.nodes[i].inputs.len() ==> (#[trigger] g.nodes[i].inputs[k]).id
                != g.nodes[i].outputs[s].id,
        forall|j: int, t: int|
            0 <= j < g.nodes.len() && 0 <= t < g.nodes[j].outputs.len() && (j != i || t != s)
                ==> (#[trigger] g.nodes[j].outputs[t]).id != g.nodes[i].outputs[s].id,
{
    assert(g.node_wf(i));
    let y = g.nodes[i].outputs[s];
    assert(g.owns(y));
    assert forall|j: int, t: int|
        0 <= j < g.nodes.len() && 0 <= t < g.nodes[j].outputs.len() && (j != i || t != s) implies (
    #[trigger] g.nodes[j].outputs[t]).id != y.id by {
        assert(g.node_wf(j));
        assert(g.owns(g.nodes[j].outputs[t]));
    }
}

} // verus!
