//! The scoped context: naming, external bindings and operator calls of one
//! sub-network.

use crate::arg::{arg_view, Arg, ArgV};
use crate::ctx::name::{join, label, label_text, plain};
use crate::ctx::tidy::{
    lemma_call_tidy, lemma_empty_tidy, lemma_enter_tidy, lemma_leave_tidy, lemma_same_names_tidy,
    names_unique,
};
use crate::ctx::{GraphBuilder, OpLib};
use crate::graph::{
    lemma_with_external_in_wf, lemma_with_external_out_wf, lemma_with_node_wf, GraphV, NNGraph,
};
use crate::nn::{NNError, NNErrorV, NuralNetwork};
use crate::op::{Op, OpError, Operator};
use crate::dim::{dims_view, Dim};
use crate::dtype::Dtype;
use crate::graph::{Origin, SlotV};
use crate::tensor::{metas_of, metas_view, tensors_view, MetaV, Tensor, TensorMeta, TensorV};
use vstd::hash_map::StringHashMap;
use vstd::hash_set::StringHashSet;
use vstd::prelude::*;

verus! {

/// How often each name has been decorated.
pub type Counts = Map<Seq<char>, usize>;

/// How often `base` has been decorated.
pub open spec fn count(counts: Counts, base: Seq<char>) -> nat {
    if counts.contains_key(base) {
        counts[base] as nat
    } else {
        0
    }
}

/// The counts after one more decoration of `name`, and the label that the
/// decoration gives.
pub open spec fn decorated(counts: Counts, name: Seq<char>) -> (Counts, Seq<char>) {
    (
        counts.insert(name, (count(counts, name) + 1) as usize),
        label(name, count(counts, name)),
    )
}

/// The counts after `n` more decorations of `name`, and the labels that
/// they give, in order.
pub open spec fn decorated_times(counts: Counts, name: Seq<char>, n: nat) -> (
    Counts,
    Seq<Seq<char>>,
)
    decreases n,
{
    if n == 0 {
        (counts, Seq::empty())
    } else {
        let (before, labels) = decorated_times(counts, name, (n - 1) as nat);
        let (after, last) = decorated(before, name);
        (after, labels.push(last))
    }
}

/// Decorating a name again and again numbers its occurrences: the
/// decoration number `k`, counted from zero, of a name that was decorated
/// `c` times before gives the label of occurrence `c + k`. For a name that
/// is new these are the name itself, then the name with `-1`, `-2`, …
pub proof fn lemma_decorate_numbers(counts: Counts, name: Seq<char>, n: nat)
    requires
        count(counts, name) + n <= usize::MAX,
    ensures
        decorated_times(counts, name, n).1 == Seq::new(
            n,
            |k: int| label(name, (count(counts, name) + k) as nat),
        ),
        count(decorated_times(counts, name, n).0, name) == count(counts, name) + n,
        !counts.contains_key(name) && n >= 1 ==> decorated_times(counts, name, n).1[0] == name,
    decreases n,
{
    if n > 0 {
        lemma_decorate_numbers(counts, name, (n - 1) as nat);
        assert(decorated_times(counts, name, n).1 =~= Seq::new(
            n,
            |k: int| label(name, (count(counts, name) + k) as nat),
        ));
    } else {
        assert(decorated_times(counts, name, n).1 =~= Seq::new(
            n,
            |k: int| label(name, (count(counts, name) + k) as nat),
        ));
    }
}

/// Makes repeated names unique within one scope.
pub struct NameDecorator(StringHashMap<usize>);

impl View for NameDecorator {
    type V = Counts;

    closed spec fn view(&self) -> Counts {
        self.0@
    }
}

impl NameDecorator {
    /// A decorator that has seen no name.
    pub fn new() -> (d: NameDecorator)
        ensures
            d@ == Counts::empty(),
    {
        NameDecorator(StringHashMap::new())
    }

    /// The label of this occurrence of `name`: the name itself the first
    /// time, then the name with `-1`, `-2`, … appended.
    pub fn decorate(&mut self, name: String) -> (r: String)
        requires
            count(old(self)@, name@) < usize::MAX,
        ensures
            (final(self)@, r@) == decorated(old(self)@, name@),
    {
        let seen: usize = match self.0.get(name.as_str()) {
            Some(n) => *n,
            None => 0,
        };
        let r = label_text(name.as_str(), seen);
        self.0.insert(name, seen + 1);
        r
    }
}

/// Mathematical value of a [`Context`].
pub struct ScopeV<T> {
    /// Dotted path of the scope.
    pub path: Seq<char>,
    /// The graph under construction.
    pub graph: GraphV<T>,
    /// The operators that calls are resolved against.
    pub lib: Map<Seq<char>, Op>,
    /// External names claimed in this scope.
    pub names: Set<Seq<char>>,
    /// Decorations of sub-scope names.
    pub sub: Counts,
    /// Decorations of operator call names.
    pub ops: Counts,
}

/// Node `j` of `graph` holds what the rule of its operator in `lib` gives
/// for its inputs and argument.
pub open spec fn node_consistent<T>(graph: GraphV<T>, lib: Map<Seq<char>, Op>, j: int) -> bool {
    let node = graph.nodes[j];
    lib.contains_key(node.op) && lib[node.op].rule(metas_of(node.inputs), node.arg) == Ok::<
        Seq<MetaV>,
        OpError,
    >(metas_of(node.outputs))
}

/// Inference can be run again on every node of a consistent graph: the
/// library still has the node's operator, and its rule gives the metas of
/// the node's outputs for the metas of the node's inputs and its argument.
pub proof fn lemma_inference_reruns<T>(graph: GraphV<T>, lib: Map<Seq<char>, Op>, j: int)
    requires
        consistent(graph, lib),
        0 <= j < graph.nodes.len(),
    ensures
        lib.contains_key(graph.nodes[j].op),
        lib[graph.nodes[j].op].rule(metas_of(graph.nodes[j].inputs), graph.nodes[j].arg) == Ok::<
            Seq<MetaV>,
            OpError,
        >(metas_of(graph.nodes[j].outputs)),
{
    assert(node_consistent(graph, lib, j));
}

/// Every node of `graph` holds what its operator's rule gives.
pub open spec fn consistent<T>(graph: GraphV<T>, lib: Map<Seq<char>, Op>) -> bool {
    forall|j: int| 0 <= j < graph.nodes.len() ==> #[trigger] node_consistent(graph, lib, j)
}

impl<T> ScopeV<T> {
    /// The invariant of a context.
    pub open spec fn wf(self) -> bool {
        self.graph.wf() && consistent(self.graph, self.lib)
    }

    /// Nothing has been named in this scope yet.
    pub open spec fn fresh(self) -> bool {
        self.names == Set::<Seq<char>>::empty() && self.sub == Counts::empty() && self.ops
            == Counts::empty()
    }

    /// The scope at `path` over `graph` and `lib` in which nothing has been
    /// named.
    pub open spec fn opened(path: Seq<char>, graph: GraphV<T>, lib: Map<Seq<char>, Op>) -> ScopeV<
        T,
    > {
        ScopeV {
            path,
            graph,
            lib,
            names: Set::empty(),
            sub: Counts::empty(),
            ops: Counts::empty(),
        }
    }

    /// This scope is a later state of `before`: same path, same library, and
    /// a graph that continues the one of `before`.
    pub open spec fn continues(self, before: ScopeV<T>) -> bool {
        &&& self.wf()
        &&& self.path == before.path
        &&& self.lib == before.lib
        &&& before.graph.extended_by(self.graph)
        &&& forall|t: TensorV| before.graph.owns(t) ==> self.graph.owns(t)
    }

    /// The tables of this scope are those of `before` after one more
    /// decoration of the call name `base`.
    pub open spec fn called(self, before: ScopeV<T>, base: Seq<char>) -> bool {
        &&& self.names == before.names
        &&& self.sub == before.sub
        &&& self.ops == before.ops.insert(base, (count(before.ops, base) + 1) as usize)
    }

    /// The tables of this scope are those of `before` after one more
    /// decoration of the sub-scope name `name`.
    pub open spec fn descended(self, before: ScopeV<T>, name: Seq<char>) -> bool {
        &&& self.path == before.path
        &&& self.lib == before.lib
        &&& self.names == before.names
        &&& self.ops == before.ops
        &&& self.sub == before.sub.insert(name, (count(before.sub, name) + 1) as usize)
    }

    /// The tables of this scope are those of `before` after the claim of
    /// the external name `name`.
    pub open spec fn claimed(self, before: ScopeV<T>, name: Seq<char>) -> bool {
        &&& self.names == before.names.insert(name)
        &&& self.sub == before.sub
        &&& self.ops == before.ops
    }

    /// Fully qualified name of the external `name` of this scope.
    pub open spec fn external_name(self, name: Seq<char>) -> Seq<char> {
        self.path + seq!['.'] + name
    }

    /// The name under which a call is decorated: `name`, or `op` where
    /// `name` is empty.
    pub open spec fn call_base(name: Seq<char>, op: Seq<char>) -> Seq<char> {
        if name.len() == 0 {
            op
        } else {
            name
        }
    }

    /// Fully qualified name of the next call of `op` under the name `name`.
    pub open spec fn call_name(self, name: Seq<char>, op: Seq<char>) -> Seq<char> {
        let base = Self::call_base(name, op);
        self.path + seq![':'] + label(base, count(self.ops, base))
    }

    /// Path of the next sub-scope called `name`.
    pub open spec fn sub_path(self, name: Seq<char>) -> Seq<char> {
        self.path + seq!['.'] + label(name, count(self.sub, name))
    }

    /// The scope after loading the external `name`, and the handle to it.
    #[verifier::opaque]
    pub open spec fn load(self, name: Seq<char>, meta: MetaV, item: T) -> (ScopeV<T>, TensorV) {
        (
            ScopeV {
                graph: self.graph.with_external_in(self.external_name(name), meta, item),
                names: self.names.insert(name),
                ..self
            },
            TensorV { id: self.graph.slots.len() as int, meta },
        )
    }

    /// The scope after saving `tensor` as the external `name`.
    #[verifier::opaque]
    pub open spec fn save(self, name: Seq<char>, tensor: TensorV, item: T) -> ScopeV<T> {
        ScopeV {
            graph: self.graph.with_external_out(self.external_name(name), tensor, item),
            names: self.names.insert(name),
            ..self
        }
    }

    /// What the call of `op` on `inputs` with `arg` yields: the metas of its
    /// rule, `UnknownOp` where the library has no such operator, or the
    /// rule's error.
    pub open spec fn resolve(self, op: Seq<char>, arg: Option<ArgV>, inputs: Seq<TensorV>) -> Result<
        Seq<MetaV>,
        OpError,
    > {
        if self.lib.contains_key(op) {
            self.lib[op].rule(metas_of(inputs), arg)
        } else {
            Err(OpError::UnknownOp)
        }
    }

    /// The scope after a call, and what the call returns. The name is
    /// decorated whether the call succeeds or not; a node is appended only
    /// when it succeeds.
    #[verifier::opaque]
    pub open spec fn call(
        self,
        name: Seq<char>,
        op: Seq<char>,
        arg: Option<ArgV>,
        inputs: Seq<TensorV>,
    ) -> (ScopeV<T>, Result<Seq<TensorV>, NNErrorV>) {
        let base = Self::call_base(name, op);
        let fq = self.call_name(name, op);
        let ops = self.ops.insert(base, (count(self.ops, base) + 1) as usize);
        match self.resolve(op, arg, inputs) {
            Ok(metas) => (
                ScopeV { graph: self.graph.with_node(fq, op, inputs, arg, metas), ops, ..self },
                Ok(self.graph.fresh(metas)),
            ),
            Err(err) => (ScopeV { ops, ..self }, Err(NNErrorV { name: fq, err })),
        }
    }

    /// The scope after an unnamed call of `op` that has to yield exactly one
    /// tensor, and that tensor. A call that yields another number of tensors
    /// is a `ShapeError` of that call.
    #[verifier::opaque]
    pub open spec fn apply(self, op: Seq<char>, arg: Option<ArgV>, inputs: Seq<TensorV>) -> (
        ScopeV<T>,
        Result<TensorV, NNErrorV>,
    ) {
        let (after, called) = self.call(Seq::empty(), op, arg, inputs);
        match called {
            Ok(outputs) => if outputs.len() == 1 {
                (after, Ok(outputs[0]))
            } else {
                (
                    after,
                    Err(
                        NNErrorV {
                            name: self.call_name(Seq::empty(), op),
                            err: OpError::ShapeError,
                        },
                    ),
                )
            },
            Err(e) => (after, Err(e)),
        }
    }

    /// The scope after an unnamed call of `op` that has to yield exactly
    /// `k` tensors, and those tensors. A call that yields another number of
    /// tensors is a `ShapeError` of that call.
    #[verifier::opaque]
    pub open spec fn apply_many(
        self,
        op: Seq<char>,
        arg: Option<ArgV>,
        inputs: Seq<TensorV>,
        k: nat,
    ) -> (ScopeV<T>, Result<Seq<TensorV>, NNErrorV>) {
        let (after, called) = self.call(Seq::empty(), op, arg, inputs);
        match called {
            Ok(outputs) => if outputs.len() == k {
                (after, Ok(outputs))
            } else {
                (
                    after,
                    Err(
                        NNErrorV {
                            name: self.call_name(Seq::empty(), op),
                            err: OpError::ShapeError,
                        },
                    ),
                )
            },
            Err(e) => (after, Err(e)),
        }
    }

    /// The scope after descending into the sub-scope `name` with a network
    /// that has to return exactly one tensor, and that tensor. A network
    /// that returns another number of tensors is a `ShapeError` of the
    /// sub-scope.
    #[verifier::opaque]
    pub open spec fn descend<NN: NuralNetwork<T>>(
        self,
        name: Seq<char>,
        nn: NN,
        inputs: Seq<TensorV>,
    ) -> Step<T> {
        let (after, trapped) = self.trap(name, nn, inputs);
        match trapped {
            Ok(outputs) => if outputs.len() == 1 {
                (after, Ok(outputs[0]))
            } else {
                (after, Err(NNErrorV { name: self.sub_path(name), err: OpError::ShapeError }))
            },
            Err(e) => (after, Err(e)),
        }
    }

    /// The scope after descending into the sub-scope `name` with `nn`, and
    /// what the descent returns. On failure the graph under construction is
    /// given up.
    #[verifier::opaque]
    pub open spec fn trap<NN: NuralNetwork<T>>(
        self,
        name: Seq<char>,
        nn: NN,
        inputs: Seq<TensorV>,
    ) -> (ScopeV<T>, Result<Seq<TensorV>, NNErrorV>) {
        let sub = self.sub.insert(name, (count(self.sub, name) + 1) as usize);
        match nn.outcome(Self::opened(self.sub_path(name), self.graph, self.lib), inputs) {
            Ok((inner, outputs)) => (ScopeV { graph: inner.graph, sub, ..self }, Ok(outputs)),
            Err(e) => (ScopeV { graph: GraphV::empty(), sub, ..self }, Err(e)),
        }
    }
}

/// A call that the library resolves keeps the invariant of the scope.
pub proof fn lemma_call_wf<T>(
    scope: ScopeV<T>,
    name: Seq<char>,
    op: Seq<char>,
    arg: Option<ArgV>,
    inputs: Seq<TensorV>,
)
    requires
        scope.wf(),
        scope.graph.owns_all(inputs),
    ensures
        scope.call(name, op, arg, inputs).0.continues(scope),
        scope.call(name, op, arg, inputs).0.called(scope, ScopeV::<T>::call_base(name, op)),
        scope.call(name, op, arg, inputs).1 matches Ok(outputs) ==> scope.call(
            name,
            op,
            arg,
            inputs,
        ).0.graph.owns_all(outputs),
{
    reveal(ScopeV::call);
    let after = scope.call(name, op, arg, inputs).0;
    match scope.resolve(op, arg, inputs) {
        Ok(metas) => {
            let fq = scope.call_name(name, op);
            lemma_with_node_wf(scope.graph, fq, op, inputs, arg, metas);
            assert forall|j: int| 0 <= j < after.graph.nodes.len() implies #[trigger] node_consistent(
                after.graph,
                after.lib,
                j,
            ) by {
                if j < scope.graph.nodes.len() {
                    assert(node_consistent(scope.graph, scope.lib, j));
                } else {
                    assert(metas_of(scope.graph.fresh(metas)) =~= metas);
                }
            }
        },
        Err(_) => {},
    }
}

/// Path of the root scope.
pub open spec fn root_path() -> Seq<char> {
    "Ω"@
}

/// The graph that holds nothing but one input for each of `metas`.
pub open spec fn inputs_graph<T>(metas: Seq<MetaV>) -> GraphV<T> {
    GraphV {
        slots: Seq::new(metas.len(), |i: int| SlotV { meta: metas[i], from: Origin::Input(i) }),
        inputs: Seq::new(metas.len(), |i: int| TensorV { id: i, meta: metas[i] }),
        ..GraphV::empty()
    }
}

/// The scope in which a build over `lib` launches its network on inputs of
/// `metas`.
pub open spec fn root_scope<T>(lib: Map<Seq<char>, Op>, metas: Seq<MetaV>) -> ScopeV<T> {
    ScopeV::opened(root_path(), inputs_graph(metas), lib)
}

/// The metas of a list of handles.
pub fn metas_of_handles(inputs: &Vec<Tensor>) -> (r: Vec<TensorMeta>)
    ensures
        metas_view(r@) == metas_of(tensors_view(inputs@)),
{
    let mut out: Vec<TensorMeta> = Vec::new();
    let mut i: usize = 0;
    while i < inputs.len()
        invariant
            i <= inputs.len(),
            out@.len() == i,
            forall|k: int| 0 <= k < i ==> (#[trigger] out@[k])@ == inputs@[k]@.meta,
        decreases inputs.len() - i,
    {
        out.push(inputs[i].meta().duplicate());
        i += 1;
    }
    proof {
        assert(metas_view(out@) =~= metas_of(tensors_view(inputs@)));
    }
    out
}

/// The context of one sub-network: where it is in the tree of scopes, the
/// graph it appends to, and the names it has given out.
pub struct Context<'g, T> {
    path: String,
    graph: NNGraph<T>,
    lib: &'g OpLib,
    tensor_name: StringHashSet,
    sub: NameDecorator,
    ops: NameDecorator,
}

impl<'g, T> View for Context<'g, T> {
    type V = ScopeV<T>;

    closed spec fn view(&self) -> ScopeV<T> {
        ScopeV {
            path: self.path@,
            graph: self.graph@,
            lib: self.lib@,
            names: self.tensor_name@,
            sub: self.sub@,
            ops: self.ops@,
        }
    }
}

impl<'g, T> Context<'g, T> {
    /// Dotted path of this scope.
    pub fn path(&self) -> (r: &str)
        ensures
            r@ == self@.path,
    {
        self.path.as_str()
    }

    /// The graph under construction.
    pub fn graph(&self) -> (r: &NNGraph<T>)
        ensures
            r@ == self@.graph,
    {
        &self.graph
    }

    /// Whether the external name `name` has been claimed in this scope.
    pub fn claimed(&self, name: &str) -> (r: bool)
        ensures
            r == self@.names.contains(name@),
    {
        self.tensor_name.contains(name)
    }

    /// Whether `t` is a tensor of the graph under construction.
    pub fn owns(&self, t: &Tensor) -> (r: bool)
        ensures
            r == self@.graph.owns(t@),
    {
        self.graph.owns(t)
    }

    /// Descends into `nn` in a new sub-scope called after `name`, and
    /// returns what `nn` returns.
    pub fn trap<NN: NuralNetwork<T>>(&mut self, name: &str, nn: NN, inputs: Vec<Tensor>) -> (r:
        Result<Vec<Tensor>, NNError>)
        requires
            old(self)@.wf(),
            count(old(self)@.sub, name@) < usize::MAX,
            old(self)@.graph.owns_all(tensors_view(inputs@)),
            nn.accepts(metas_of(tensors_view(inputs@))),
        ensures
            final(self)@ == old(self)@.trap(name@, nn, tensors_view(inputs@)).0,
            returned(r) == old(self)@.trap(name@, nn, tensors_view(inputs@)).1,
            final(self)@.wf(),
            final(self)@.descended(old(self)@, name@),
            r matches Ok(outputs) ==> final(self)@.continues(old(self)@)
                && final(self)@.graph.owns_all(tensors_view(outputs@)),
            forall|since: nat|
                plain(name@) && nn.well_named() && #[trigger] old(self)@.tidy(since)
                    ==> final(self)@.tidy(since),
    {
        let label = self.sub.decorate(name.to_owned());
        proof {
            reveal(ScopeV::trap);
            assert forall|since: nat|
                plain(name@) && nn.well_named() && #[trigger] old(self)@.tidy(
                    since,
                ) implies ScopeV::opened(
                old(self)@.sub_path(name@),
                old(self)@.graph,
                old(self)@.lib,
            ).tidy(old(self)@.graph.nodes.len()) by {
                lemma_enter_tidy(old(self)@, name@, since);
            }
            reveal_strlit(".");
            assert("."@ =~= seq!['.']);
        }
        let path = join(self.path.as_str(), ".", label.as_str());
        let mut graph: NNGraph<T> = NNGraph::new();
        core::mem::swap(&mut self.graph, &mut graph);
        match trap(path, graph, self.lib, nn, inputs) {
            Ok((graph, outputs)) => {
                self.graph = graph;
                proof {
                    let inner = nn.outcome(
                        ScopeV::opened(path@, old(self)@.graph, old(self)@.lib),
                        tensors_view(inputs@),
                    )->Ok_0.0;
                    assert forall|since: nat|
                        plain(name@) && nn.well_named() && #[trigger] old(self)@.tidy(
                            since,
                        ) implies self@.tidy(since) by {
                        lemma_leave_tidy(old(self)@, name@, inner, since);
                    }
                }
                Ok(outputs)
            },
            Err(e) => {
                proof {
                    assert(consistent(GraphV::<T>::empty(), self@.lib));
                    assert forall|since: nat| #[trigger] old(self)@.tidy(since) implies self@.tidy(
                        since,
                    ) by {
                        lemma_empty_tidy(self@, since);
                    }
                }
                Err(e)
            },
        }
    }

    /// Descends into `nn` in a new sub-scope called after `name`, and
    /// returns the one tensor that `nn` returns.
    pub fn descend<NN: NuralNetwork<T>>(&mut self, name: &str, nn: NN, inputs: Vec<Tensor>) -> (r:
        Result<Tensor, NNError>)
        requires
            old(self)@.wf(),
            count(old(self)@.sub, name@) < usize::MAX,
            old(self)@.graph.owns_all(tensors_view(inputs@)),
            nn.accepts(metas_of(tensors_view(inputs@))),
        ensures
            (final(self)@, yielded(r)) == old(self)@.descend(name@, nn, tensors_view(inputs@)),
            final(self)@.wf(),
            final(self)@.descended(old(self)@, name@),
            r matches Ok(output) ==> final(self)@.continues(old(self)@) && final(self)@.graph.owns(
                output@,
            ),
            forall|since: nat|
                plain(name@) && nn.well_named() && #[trigger] old(self)@.tidy(since)
                    ==> final(self)@.tidy(since),
    {
        proof {
            reveal(ScopeV::descend);
            reveal_strlit(".");
            assert("."@ =~= seq!['.']);
        }
        let seen: usize = match self.sub.0.get(name) {
            Some(n) => *n,
            None => 0,
        };
        let at = join(self.path.as_str(), ".", label_text(name, seen).as_str());
        match self.trap(name, nn, inputs) {
            Ok(mut outputs) => {
                if outputs.len() == 1 {
                    let ghost all = tensors_view(outputs@);
                    assert(all[0] == outputs@[0]@);
                    Ok(outputs.remove(0))
                } else {
                    Err(NNError { name: at, err: OpError::ShapeError })
                }
            },
            Err(e) => Err(e),
        }
    }

    /// Binds `item` as the external `name` of this scope, a tensor of
    /// element type `dt` and shape `shape`. A name is claimed once per scope.
    pub fn load_external(&mut self, name: &str, dt: Dtype, shape: Vec<Dim>, item: T) -> (t: Tensor)
        requires
            old(self)@.wf(),
            !old(self)@.names.contains(name@),
        ensures
            final(self)@ == old(self)@.load(
                name@,
                MetaV { dt, shape: dims_view(shape@) },
                item,
            ).0,
            t@ == old(self)@.load(name@, MetaV { dt, shape: dims_view(shape@) }, item).1,
            final(self)@.continues(old(self)@),
            final(self)@.claimed(old(self)@, name@),
            final(self)@.graph.owns(t@),
            forall|since: nat| #[trigger] old(self)@.tidy(since) ==> final(self)@.tidy(since),
    {
        let _ = self.tensor_name.insert(name.to_owned());
        proof {
            reveal(ScopeV::load);
            let after = old(self)@.load(name@, MetaV { dt, shape: dims_view(shape@) }, item).0;
            assert forall|since: nat| #[trigger] old(self)@.tidy(since) implies after.tidy(
                since,
            ) by {
                lemma_same_names_tidy(old(self)@, after, since);
            }
            reveal_strlit(".");
            assert("."@ =~= seq!['.']);
        }
        let fq = join(self.path.as_str(), ".", name);
        let meta = TensorMeta::new(dt, shape);
        proof {
            lemma_with_external_in_wf(old(self)@.graph, fq@, meta@, item);
            lemma_consistent_same_nodes(
                old(self)@.graph,
                old(self)@.graph.with_external_in(fq@, meta@, item),
                old(self)@.lib,
            );
        }
        self.graph.load_external(fq, meta, item)
    }

    /// Binds `tensor` to `item` as the external `name` of this scope, to be
    /// kept when the graph has run. A name is claimed once per scope.
    pub fn save_external(&mut self, name: &str, tensor: Tensor, item: T)
        requires
            old(self)@.wf(),
            !old(self)@.names.contains(name@),
            old(self)@.graph.owns(tensor@),
        ensures
            final(self)@ == old(self)@.save(name@, tensor@, item),
            final(self)@.continues(old(self)@),
            final(self)@.claimed(old(self)@, name@),
            forall|since: nat| #[trigger] old(self)@.tidy(since) ==> final(self)@.tidy(since),
    {
        let _ = self.tensor_name.insert(name.to_owned());
        proof {
            reveal(ScopeV::save);
            let after = old(self)@.save(name@, tensor@, item);
            assert forall|since: nat| #[trigger] old(self)@.tidy(since) implies after.tidy(
                since,
            ) by {
                lemma_same_names_tidy(old(self)@, after, since);
            }
            reveal_strlit(".");
            assert("."@ =~= seq!['.']);
        }
        let fq = join(self.path.as_str(), ".", name);
        proof {
            lemma_with_external_out_wf(old(self)@.graph, fq@, tensor@, item);
            lemma_consistent_same_nodes(
                old(self)@.graph,
                old(self)@.graph.with_external_out(fq@, tensor@, item),
                old(self)@.lib,
            );
        }
        self.graph.save_external(fq, tensor, item)
    }

    /// Calls the operator `op` on `inputs` with `arg`, under the name `name`
    /// or, where that is empty, under the operator's own name.
    pub fn call(&mut self, name: &str, op: &str, arg: Option<Arg>, inputs: Vec<Tensor>) -> (r:
        Result<Vec<Tensor>, NNError>)
        requires
            old(self)@.wf(),
            count(old(self)@.ops, ScopeV::<T>::call_base(name@, op@)) < usize::MAX,
            old(self)@.graph.owns_all(tensors_view(inputs@)),
        ensures
            final(self)@ == old(self)@.call(name@, op@, arg_view(arg), tensors_view(inputs@)).0,
            returned(r) == old(self)@.call(name@, op@, arg_view(arg), tensors_view(inputs@)).1,
            final(self)@.continues(old(self)@),
            final(self)@.called(old(self)@, ScopeV::<T>::call_base(name@, op@)),
            r matches Ok(outputs) ==> final(self)@.graph.owns_all(tensors_view(outputs@)),
            forall|since: nat|
                plain(ScopeV::<T>::call_base(name@, op@)) && #[trigger] old(self)@.tidy(since)
                    ==> final(self)@.tidy(since),
    {
        let (fq, called) = self.call_named(name, op, arg, inputs);
        match called {
            Ok(outputs) => Ok(outputs),
            Err(err) => Err(NNError { name: fq, err }),
        }
    }

    /// Calls the operator `op` on `inputs` with `arg` under its own name,
    /// and returns the one tensor it yields.
    pub fn apply(&mut self, op: &str, arg: Option<Arg>, inputs: Vec<Tensor>) -> (r: Result<
        Tensor,
        NNError,
    >)
        requires
            old(self)@.wf(),
            count(old(self)@.ops, op@) < usize::MAX,
            old(self)@.graph.owns_all(tensors_view(inputs@)),
        ensures
            final(self)@ == old(self)@.apply(op@, arg_view(arg), tensors_view(inputs@)).0,
            yielded(r) == old(self)@.apply(op@, arg_view(arg), tensors_view(inputs@)).1,
            final(self)@.continues(old(self)@),
            final(self)@.called(old(self)@, op@),
            r matches Ok(output) ==> final(self)@.graph.owns(output@),
            forall|since: nat|
                plain(op@) && #[trigger] old(self)@.tidy(since) ==> final(self)@.tidy(since),
    {
        proof {
            reveal(ScopeV::apply);
            reveal_strlit("");
            assert(""@ =~= Seq::<char>::empty());
        }
        let (fq, called) = self.call_named("", op, arg, inputs);
        match called {
            Ok(mut outputs) => {
                if outputs.len() == 1 {
                    let ghost all = tensors_view(outputs@);
                    assert(all[0] == outputs@[0]@);
                    Ok(outputs.remove(0))
                } else {
                    Err(NNError { name: fq, err: OpError::ShapeError })
                }
            },
            Err(err) => Err(NNError { name: fq, err }),
        }
    }

    /// Calls the operator `op` on `inputs` with `arg` under its own name,
    /// and returns the `k` tensors it yields.
    pub fn apply_many(&mut self, op: &str, arg: Option<Arg>, inputs: Vec<Tensor>, k: usize) -> (r:
        Result<Vec<Tensor>, NNError>)
        requires
            old(self)@.wf(),
            count(old(self)@.ops, op@) < usize::MAX,
            old(self)@.graph.owns_all(tensors_view(inputs@)),
        ensures
            (final(self)@, returned(r)) == old(self)@.apply_many(
                op@,
                arg_view(arg),
                tensors_view(inputs@),
                k as nat,
            ),
            final(self)@.continues(old(self)@),
            final(self)@.called(old(self)@, op@),
            r matches Ok(outputs) ==> outputs@.len() == k && final(self)@.graph.owns_all(
                tensors_view(outputs@),
            ),
            forall|since: nat|
                plain(op@) && #[trigger] old(self)@.tidy(since) ==> final(self)@.tidy(since),
    {
        proof {
            reveal(ScopeV::apply_many);
            reveal_strlit("");
            assert(""@ =~= Seq::<char>::empty());
        }
        let (fq, called) = self.call_named("", op, arg, inputs);
        match called {
            Ok(outputs) => {
                if outputs.len() == k {
                    Ok(outputs)
                } else {
                    Err(NNError { name: fq, err: OpError::ShapeError })
                }
            },
            Err(err) => Err(NNError { name: fq, err }),
        }
    }

    /// Applies `steps` one after the other, the first to `x` and each other
    /// to what the one before it yields, and returns what the last yields.
    pub fn pipeline(&mut self, x: Tensor, steps: Vec<(String, Option<Arg>)>) -> (r: Result<
        Tensor,
        NNError,
    >)
        requires
            old(self)@.wf(),
            old(self)@.graph.owns(x@),
            forall|k: int|
                0 <= k < steps@.len() ==> roomy(
                    old(self)@.ops,
                    #[trigger] stages_view(steps@)[k].0,
                    steps@.len(),
                ),
        ensures
            (final(self)@, yielded(r)) == piped((old(self)@, Ok(x@)), stages_view(steps@)),
            final(self)@.continues(old(self)@),
            final(self)@.names == old(self)@.names,
            final(self)@.sub == old(self)@.sub,
            r matches Ok(y) ==> final(self)@.graph.owns(y@),
            forall|since: nat|
                all_plain(stages_view(steps@)) && #[trigger] old(self)@.tidy(since)
                    ==> final(self)@.tidy(since),
    {
        let ghost start: Step<T> = (self@, Ok(x@));
        let ghost all = stages_view(steps@);
        let total = steps.len();
        let mut rest_steps = steps;
        let mut at_hand = x;
        let mut i: usize = 0;
        proof {
            assert(all.subrange(0, 0) =~= Seq::<Stage>::empty());
            assert(all.subrange(0, all.len() as int) =~= all);
        }
        while i < total
            invariant
                i <= total,
                total == all.len(),
                start == (old(self)@, Ok::<TensorV, NNErrorV>(x@)),
                all == stages_view(steps@),
                stages_view(rest_steps@) == all.subrange(i as int, all.len() as int),
                rest_steps@.len() == total - i,
                (self@, Ok::<TensorV, NNErrorV>(at_hand@)) == piped(
                    start,
                    all.subrange(0, i as int),
                ),
                self@.continues(old(self)@),
                self@.names == old(self)@.names,
                self@.sub == old(self)@.sub,
                self@.graph.owns(at_hand@),
                forall|since: nat|
                    all_plain(all) && #[trigger] old(self)@.tidy(since) ==> self@.tidy(since),
                forall|k: int|
                    0 <= k < all.len() ==> count(self@.ops, #[trigger] all[k].0) + (total - i)
                        <= usize::MAX,
            decreases total - i,
        {
            let ghost before = self@;
            let ghost prev = rest_steps@;
            let ghost rest = stages_view(prev);
            assert(rest[0] == all[i as int]);
            let (op, arg) = rest_steps.remove(0);
            proof {
                assert(op@ == all[i as int].0 && arg_view(arg) == all[i as int].1);
                assert forall|k: int| 0 <= k < rest_steps@.len() implies stages_view(rest_steps@)[k]
                    == all.subrange(i + 1, all.len() as int)[k] by {
                    assert(rest_steps@[k] == prev[k + 1]);
                    assert(rest[k + 1] == all.subrange(i as int, all.len() as int)[k + 1]);
                }
                assert(stages_view(rest_steps@) =~= all.subrange(i + 1, all.len() as int));
                assert(all.subrange(0, i + 1).drop_last() =~= all.subrange(0, i as int));
                assert(all.subrange(0, i + 1).last() == all[i as int]);
            }
            match self.apply(op.as_str(), arg, crate::tensor::list1(at_hand)) {
                Ok(y) => {
                    at_hand = y;
                },
                Err(e) => {
                    proof {
                        assert(piped(start, all.subrange(0, i + 1)) == (
                            self@,
                            Err::<TensorV, NNErrorV>(e@),
                        ));
                        lemma_piped_stops(start, all, i + 1);
                    }
                    return Err(e);
                },
            }
            proof {
                assert forall|k: int| 0 <= k < all.len() implies count(
                    self@.ops,
                    #[trigger] all[k].0,
                ) + (total - (i + 1)) <= usize::MAX by {
                    assert(count(before.ops, all[k].0) + (total - i) <= usize::MAX);
                }
            }
            i += 1;
        }
        proof {
            assert(all.subrange(0, i as int) =~= all);
        }
        Ok(at_hand)
    }

    /// Calls the operator and returns the fully qualified name of the call
    /// with what the call gave.
    fn call_named(&mut self, name: &str, op: &str, arg: Option<Arg>, inputs: Vec<Tensor>) -> (r: (
        String,
        Result<Vec<Tensor>, OpError>,
    ))
        requires
            old(self)@.wf(),
            count(old(self)@.ops, ScopeV::<T>::call_base(name@, op@)) < usize::MAX,
            old(self)@.graph.owns_all(tensors_view(inputs@)),
        ensures
            final(self)@ == old(self)@.call(name@, op@, arg_view(arg), tensors_view(inputs@)).0,
            r.0@ == old(self)@.call_name(name@, op@),
            match r.1 {
                Ok(outputs) => old(self)@.call(
                    name@,
                    op@,
                    arg_view(arg),
                    tensors_view(inputs@),
                ).1 == Ok::<Seq<TensorV>, NNErrorV>(tensors_view(outputs@)),
                Err(err) => old(self)@.call(name@, op@, arg_view(arg), tensors_view(inputs@)).1
                    == Err::<Seq<TensorV>, NNErrorV>(NNErrorV { name: r.0@, err }),
            },
            final(self)@.continues(old(self)@),
            final(self)@.called(old(self)@, ScopeV::<T>::call_base(name@, op@)),
            r.1 matches Ok(outputs) ==> final(self)@.graph.owns_all(tensors_view(outputs@)),
            forall|since: nat|
                plain(ScopeV::<T>::call_base(name@, op@)) && #[trigger] old(self)@.tidy(since)
                    ==> final(self)@.tidy(since),
    {
        proof {
            reveal(ScopeV::call);
            assert forall|since: nat|
                plain(ScopeV::<T>::call_base(name@, op@)) && #[trigger] old(self)@.tidy(
                    since,
                ) implies old(self)@.call(name@, op@, arg_view(arg), tensors_view(inputs@)).0.tidy(
                since,
            ) by {
                lemma_call_tidy(
                    old(self)@,
                    name@,
                    op@,
                    arg_view(arg),
                    tensors_view(inputs@),
                    since,
                );
            }
        }
        let base = if name.is_empty() {
            op.to_owned()
        } else {
            name.to_owned()
        };
        let label = self.ops.decorate(base);
        proof {
            reveal_strlit(":");
            assert(":"@ =~= seq![':']);
            lemma_call_wf(old(self)@, name@, op@, arg_view(arg), tensors_view(inputs@));
        }
        let fq = join(self.path.as_str(), ":", label.as_str());
        match self.lib.get(op) {
            None => (fq, Err(OpError::UnknownOp)),
            Some(operator) => {
                let metas_in = metas_of_handles(&inputs);
                let given = arg.as_ref();
                proof {
                    assert(crate::op::arg_value(given) == arg_view(arg));
                }
                let inferred = operator.infer(metas_in.as_slice(), given);
                match inferred {
                    Ok(metas) => {
                        let node_name = fq.clone();
                        (fq, Ok(self.graph.push_node(node_name, op.to_owned(), inputs, arg, metas)))
                    },
                    Err(err) => (fq, Err(err)),
                }
            },
        }
    }
}

/// A scope together with the tensor at hand, or with the error that has
/// stopped the launch.
pub type Step<T> = (ScopeV<T>, Result<TensorV, NNErrorV>);

/// The step after `step`: the unnamed call of `op` with `arg` on the tensor
/// at hand. A launch that has stopped stays stopped.
pub open spec fn pipe<T>(step: Step<T>, op: Seq<char>, arg: Option<ArgV>) -> Step<T> {
    match step.1 {
        Ok(x) => step.0.apply(op, arg, seq![x]),
        Err(_) => step,
    }
}

/// One step of a pipeline: the operator's name and its argument.
pub type Stage = (Seq<char>, Option<ArgV>);

/// Views of a list of pipeline steps.
pub open spec fn stages_view(steps: Seq<(String, Option<Arg>)>) -> Seq<Stage> {
    Seq::new(steps.len(), |i: int| (steps[i].0@, arg_view(steps[i].1)))
}

/// The step after all of `steps`, each applied to what the one before it
/// yields.
pub open spec fn piped<T>(start: Step<T>, steps: Seq<Stage>) -> Step<T>
    decreases steps.len(),
{
    if steps.len() == 0 {
        start
    } else {
        pipe(piped(start, steps.drop_last()), steps.last().0, steps.last().1)
    }
}

/// Every step of a pipeline calls an operator of plain name.
pub open spec fn all_plain(steps: Seq<Stage>) -> bool {
    forall|k: int| 0 <= k < steps.len() ==> plain(#[trigger] steps[k].0)
}

/// A pipeline that has stopped after some of its steps stays as it is.
pub proof fn lemma_piped_stops<T>(start: Step<T>, steps: Seq<Stage>, n: int)
    requires
        0 <= n <= steps.len(),
        piped(start, steps.subrange(0, n)).1 is Err,
    ensures
        piped(start, steps) == piped(start, steps.subrange(0, n)),
    decreases steps.len() - n,
{
    if n < steps.len() {
        assert(steps.subrange(0, n + 1).drop_last() =~= steps.subrange(0, n));
        lemma_piped_stops(start, steps, n + 1);
    } else {
        assert(steps.subrange(0, n) =~= steps);
    }
}

/// There is room for `calls` more decorations of `name`.
pub open spec fn roomy(counts: Counts, name: Seq<char>, calls: nat) -> bool {
    count(counts, name) + calls <= usize::MAX
}

/// Mathematical value of what `apply` returned.
pub open spec fn yielded(r: Result<Tensor, NNError>) -> Result<TensorV, NNErrorV> {
    match r {
        Ok(output) => Ok(output@),
        Err(e) => Err(e@),
    }
}

/// Mathematical value of what a context operation returned.
pub open spec fn returned(r: Result<Vec<Tensor>, NNError>) -> Result<Seq<TensorV>, NNErrorV> {
    match r {
        Ok(outputs) => Ok(tensors_view(outputs@)),
        Err(e) => Err(e@),
    }
}

/// A graph with the same nodes is consistent with the same library.
pub proof fn lemma_consistent_same_nodes<T>(g: GraphV<T>, h: GraphV<T>, lib: Map<Seq<char>, Op>)
    requires
        consistent(g, lib),
        g.nodes == h.nodes,
    ensures
        consistent(h, lib),
{
    assert forall|j: int| 0 <= j < h.nodes.len() implies #[trigger] node_consistent(h, lib, j) by {
        assert(node_consistent(g, lib, j));
    }
}

/// Launches `nn` in a new scope at `path` over `graph`, and hands the graph
/// back with what `nn` returned.
pub fn trap<'g, T, NN: NuralNetwork<T>>(
    path: String,
    graph: NNGraph<T>,
    lib: &'g OpLib,
    nn: NN,
    inputs: Vec<Tensor>,
) -> (r: Result<(NNGraph<T>, Vec<Tensor>), NNError>)
    requires
        graph@.wf(),
        consistent(graph@, lib@),
        graph@.owns_all(tensors_view(inputs@)),
        nn.accepts(metas_of(tensors_view(inputs@))),
    ensures
        match nn.outcome(ScopeV::opened(path@, graph@, lib@), tensors_view(inputs@)) {
            Ok((inner, outputs)) => r matches Ok((g, outs)) && g@ == inner.graph && tensors_view(
                outs@,
            ) == outputs && inner.continues(ScopeV::opened(path@, graph@, lib@))
                && g@.owns_all(outputs) && (forall|since: nat|
                nn.well_named() && #[trigger] ScopeV::opened(path@, graph@, lib@).tidy(since)
                    ==> inner.tidy(since)),
            Err(e) => r matches Err(x) && x@ == e,
        },
{
    let ctx = Context {
        path,
        graph,
        lib,
        tensor_name: StringHashSet::new(),
        sub: NameDecorator::new(),
        ops: NameDecorator::new(),
    };
    match nn.launch(inputs, ctx) {
        Ok((ctx, outputs)) => Ok((ctx.graph, outputs)),
        Err(e) => Err(e),
    }
}

impl GraphBuilder {
    /// Builds the graph of `nn` on inputs of the metas `inputs`: launches
    /// `nn` in the root scope and declares what it returns the results.
    pub fn build<T, NN: NuralNetwork<T>>(&self, nn: NN, inputs: Vec<TensorMeta>) -> (r: Result<
        NNGraph<T>,
        NNError,
    >)
        requires
            nn.accepts(metas_view(inputs@)),
        ensures
            match nn.outcome(
                root_scope(self.lib(), metas_view(inputs@)),
                inputs_graph::<T>(metas_view(inputs@)).inputs,
            ) {
                Ok((scope, outputs)) => r matches Ok(g) && g@ == scope.graph.with_outputs(outputs)
                    && g@.wf() && consistent(g@, self.lib()) && (nn.well_named() ==> names_unique(
                    g@,
                )),
                Err(e) => r matches Err(x) && x@ == e,
            },
    {
        let (graph, handles) = self.new_context(inputs);
        proof {
            reveal_strlit("Ω");
            reveal(ScopeV::tidy);
            lemma_empty_tidy(root_scope::<T>(self.lib(), metas_view(inputs@)), 0);
        }
        match trap("Ω".to_owned(), graph, self.op_lib(), nn, handles) {
            Ok((graph, outputs)) => {
                proof {
                    lemma_consistent_same_nodes(
                        graph@,
                        graph@.with_outputs(tensors_view(outputs@)),
                        self.lib(),
                    );
                }
                Ok(graph.into_graph(outputs))
            },
            Err(e) => Err(e),
        }
    }

    /// The graph that holds one input for each of `inputs`, and the handles
    /// to them.
    pub(crate) fn new_context<T>(&self, inputs: Vec<TensorMeta>) -> (r: (NNGraph<T>, Vec<Tensor>))
        ensures
            r.0@ == inputs_graph::<T>(metas_view(inputs@)),
            r.0@.wf(),
            consistent(r.0@, self.lib()),
            tensors_view(r.1@) == r.0@.inputs,
            r.0@.owns_all(r.0@.inputs),
            metas_of(r.0@.inputs) == metas_view(inputs@),
    {
        let mut graph: NNGraph<T> = NNGraph::new();
        let mut handles: Vec<Tensor> = Vec::new();
        let mut i: usize = 0;
        proof {
            assert(graph@ =~= inputs_graph::<T>(metas_view(inputs@).subrange(0, 0))) by {
                let g = inputs_graph::<T>(metas_view(inputs@).subrange(0, 0));
                assert(g.slots =~= Seq::<SlotV>::empty());
                assert(g.inputs =~= Seq::<TensorV>::empty());
            }
        }
        while i < inputs.len()
            invariant
                i <= inputs.len(),
                graph@ == inputs_graph::<T>(metas_view(inputs@).subrange(0, i as int)),
                graph@.wf(),
                handles@.len() == i,
                forall|k: int| 0 <= k < i ==> (#[trigger] handles@[k])@ == graph@.inputs[k],
            decreases inputs.len() - i,
        {
            let ghost before = graph@;
            let t = graph.add_input(inputs[i].duplicate());
            handles.push(t);
            proof {
                let ms = metas_view(inputs@);
                let g = inputs_graph::<T>(ms.subrange(0, i + 1));
                assert(ms.subrange(0, i + 1)[i as int] == ms[i as int]);
                assert(graph@.slots =~= g.slots);
                assert(graph@.inputs =~= g.inputs);
            }
            i += 1;
        }
        proof {
            assert(metas_view(inputs@).subrange(0, i as int) =~= metas_view(inputs@));
            assert(tensors_view(handles@) =~= graph@.inputs);
            assert(metas_of(graph@.inputs) =~= metas_view(inputs@));
            assert forall|k: int| 0 <= k < graph@.inputs.len() implies graph@.owns(
                #[trigger] graph@.inputs[k],
            ) by {
                assert(graph@.input_ok(k));
            }
        }
        (graph, handles)
    }
}

} // verus!
