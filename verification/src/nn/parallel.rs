//! Graphs over weights that are wrapped for tensor parallelism, compared
//! with graphs over the bare weights.

use crate::arg::ArgV;
use crate::ctx::nn_ctx::{pipe, piped, ScopeV, Stage, Step};
use crate::graph::{ExternalV, GraphV};
use crate::nn::distribution::TPTensor;
use crate::nn::embedding::{Embedding, Table};
use crate::nn::patch_embd::PatchEmbd;
use crate::nn::{NuralNetwork, Outcome};
use crate::tensor::{MetaV, TensorV};
use vstd::prelude::*;

verus! {

/// The bindings `externals` with every weight unwrapped.
pub open spec fn bare_externals<T>(externals: Seq<ExternalV<TPTensor<T>>>) -> Seq<ExternalV<T>> {
    Seq::new(
        externals.len(),
        |i: int|
            ExternalV { name: externals[i].name, tensor: externals[i].tensor, item: externals[i].item.val },
    )
}

/// The graph `g` with every weight unwrapped: the same nodes, tensors and
/// names over the bare weights.
pub open spec fn bare_graph<T>(g: GraphV<TPTensor<T>>) -> GraphV<T> {
    GraphV {
        nodes: g.nodes,
        slots: g.slots,
        inputs: g.inputs,
        externals_in: bare_externals(g.externals_in),
        externals_out: bare_externals(g.externals_out),
        outputs: g.outputs,
    }
}

/// The scope `s` with every weight unwrapped.
pub open spec fn bare_scope<T>(s: ScopeV<TPTensor<T>>) -> ScopeV<T> {
    ScopeV {
        path: s.path,
        graph: bare_graph(s.graph),
        lib: s.lib,
        names: s.names,
        sub: s.sub,
        ops: s.ops,
    }
}

/// What a launch leaves, with every weight unwrapped.
pub open spec fn bare_outcome<T>(o: Outcome<TPTensor<T>>) -> Outcome<T> {
    match o {
        Ok((scope, outputs)) => Ok((bare_scope(scope), outputs)),
        Err(e) => Err(e),
    }
}

/// Loading a weight that is left whole and unwrapping is loading the bare
/// weight.
pub proof fn lemma_bare_load<T>(scope: ScopeV<TPTensor<T>>, name: Seq<char>, meta: MetaV, item: T)
    ensures
        bare_scope(scope.load(name, meta, TPTensor { act: None, val: item }).0) == bare_scope(
            scope,
        ).load(name, meta, item).0,
        scope.load(name, meta, TPTensor { act: None, val: item }).1 == bare_scope(scope).load(
            name,
            meta,
            item,
        ).1,
{
    reveal(ScopeV::load);
    let wrapped = scope.load(name, meta, TPTensor { act: None, val: item }).0;
    let bare = bare_scope(scope).load(name, meta, item).0;
    assert(bare_scope(wrapped).graph.externals_in =~= bare.graph.externals_in);
    assert(bare_scope(wrapped).graph.externals_out =~= bare.graph.externals_out);
}

/// Calling an operator and unwrapping is calling it over the bare weights.
pub proof fn lemma_bare_call<T>(
    scope: ScopeV<TPTensor<T>>,
    name: Seq<char>,
    op: Seq<char>,
    arg: Option<ArgV>,
    inputs: Seq<TensorV>,
)
    ensures
        bare_scope(scope.call(name, op, arg, inputs).0) == bare_scope(scope).call(
            name,
            op,
            arg,
            inputs,
        ).0,
        scope.call(name, op, arg, inputs).1 == bare_scope(scope).call(name, op, arg, inputs).1,
{
    reveal(ScopeV::call);
    let wrapped = scope.call(name, op, arg, inputs).0;
    let bare = bare_scope(scope).call(name, op, arg, inputs).0;
    assert(bare_scope(wrapped).graph.externals_in =~= bare.graph.externals_in);
    assert(bare_scope(wrapped).graph.externals_out =~= bare.graph.externals_out);
}

impl<T> Embedding<T> {
    /// The same embedding over weights that tensor parallelism leaves whole.
    pub open spec fn spec_tensor_parallel(self) -> Embedding<TPTensor<T>> {
        Embedding {
            dt: self.dt,
            d: self.d,
            wte: Table { row: self.wte.row, weight: TPTensor { act: None, val: self.wte.weight } },
            wpe: match self.wpe {
                Some(t) => Some(Table { row: t.row, weight: TPTensor { act: None, val: t.weight } }),
                None => None,
            },
            img_info: self.img_info,
        }
    }
}

/// The graph of an embedding that went through the tensor-parallel rewrite
/// is the graph of the embedding itself, weight for weight: the same nodes,
/// the same tensors, the same names, and the same result.
pub proof fn lemma_embedding_parallel_same_graph<T>(
    embedding: Embedding<T>,
    scope: ScopeV<TPTensor<T>>,
    inputs: Seq<TensorV>,
)
    ensures
        bare_outcome(embedding.spec_tensor_parallel().outcome(scope, inputs)) == embedding.outcome(
            bare_scope(scope),
            inputs,
        ),
{
    let rewritten = embedding.spec_tensor_parallel();
    let meta = MetaV {
        dt: embedding.dt,
        shape: crate::nn::embedding::matrix(embedding.wte.row, embedding.d),
    };
    lemma_bare_load(scope, "wte"@, meta, embedding.wte.weight);
    let s1 = scope.load("wte"@, meta, rewritten.wte.weight).0;
    let wte = scope.load("wte"@, meta, rewritten.wte.weight).1;
    let arg = crate::nn::embedding::image_arg(embedding.img_info);
    match embedding.wpe {
        Some(table) => {
            let meta2 = MetaV {
                dt: embedding.dt,
                shape: crate::nn::embedding::matrix(table.row, embedding.d),
            };
            lemma_bare_load(s1, "wpe"@, meta2, table.weight);
            let s2 = s1.load("wpe"@, meta2, rewritten.wpe->0.weight).0;
            let wpe = s1.load("wpe"@, meta2, rewritten.wpe->0.weight).1;
            lemma_bare_call(
                s2,
                Seq::empty(),
                "embedding"@,
                arg,
                seq![wte, inputs[0], wpe, inputs[1]],
            );
        },
        None => {
            lemma_bare_call(s1, Seq::empty(), "embedding"@, arg, seq![wte, inputs[0]]);
        },
    }
}

/// A step of a launch, with every weight unwrapped.
pub open spec fn bare_step<T>(step: Step<TPTensor<T>>) -> Step<T> {
    (bare_scope(step.0), step.1)
}

/// Applying an operator and unwrapping is applying it over the bare
/// weights.
pub proof fn lemma_bare_apply<T>(
    scope: ScopeV<TPTensor<T>>,
    op: Seq<char>,
    arg: Option<ArgV>,
    inputs: Seq<TensorV>,
)
    ensures
        bare_step(scope.apply(op, arg, inputs)) == bare_scope(scope).apply(op, arg, inputs),
{
    reveal(ScopeV::apply);
    lemma_bare_call(scope, Seq::empty(), op, arg, inputs);
}

/// Running a pipeline and unwrapping is running it over the bare weights.
pub proof fn lemma_bare_piped<T>(start: Step<TPTensor<T>>, steps: Seq<Stage>)
    ensures
        bare_step(piped(start, steps)) == piped(bare_step(start), steps),
    decreases steps.len(),
{
    if steps.len() > 0 {
        lemma_bare_piped(start, steps.drop_last());
        let before = piped(start, steps.drop_last());
        match before.1 {
            Ok(x) => {
                lemma_bare_apply(before.0, steps.last().0, steps.last().1, seq![x]);
            },
            Err(_) => {},
        }
    }
}

impl<T> PatchEmbd<T> {
    /// The same patch embedding over weights that tensor parallelism leaves
    /// whole.
    pub open spec fn spec_whole(self) -> PatchEmbd<TPTensor<T>> {
        PatchEmbd {
            dt: self.dt,
            shape: self.shape,
            patch_embd: TPTensor { act: None, val: self.patch_embd },
            patch_embd1: TPTensor { act: None, val: self.patch_embd1 },
        }
    }
}

/// The graph of a patch embedding that went through the tensor-parallel
/// rewrite for a whole set of shards is the graph of the patch embedding
/// itself, weight for weight.
pub proof fn lemma_patch_embd_parallel_same_graph<T>(
    patches: PatchEmbd<T>,
    scope: ScopeV<TPTensor<T>>,
    inputs: Seq<TensorV>,
)
    ensures
        bare_outcome(patches.spec_whole().outcome(scope, inputs)) == patches.outcome(
            bare_scope(scope),
            inputs,
        ),
{
    let rewritten = patches.spec_whole();
    let x = inputs[0];
    let bias = inputs[1];
    let kernel = MetaV { dt: patches.dt, shape: crate::tensor::int_shape(patches.shape@) };
    lemma_bare_load(scope, "patch_embd"@, kernel, patches.patch_embd);
    let (s1, w) = scope.load("patch_embd"@, kernel, rewritten.patch_embd);
    lemma_bare_load(s1, "patch_embd1"@, kernel, patches.patch_embd1);
    let (s2, w1) = s1.load("patch_embd1"@, kernel, rewritten.patch_embd1);
    lemma_bare_apply(s2, "conv"@, None, seq![x, w, bias]);
    let (s3, first) = s2.apply("conv"@, None, seq![x, w, bias]);
    match first {
        Err(_) => {},
        Ok(y0) => {
            lemma_bare_apply(s3, "conv"@, None, seq![x, w1, bias]);
            let (s4, second) = s3.apply("conv"@, None, seq![x, w1, bias]);
            match second {
                Err(_) => {},
                Ok(y1) => {
                    lemma_bare_apply(s4, "add"@, None, seq![y0, y1]);
                    lemma_bare_piped(
                        s4.apply("add"@, None, seq![y0, y1]),
                        crate::nn::patch_embd::fold_stages(
                            crate::tensor::extent(x.meta.shape[0]),
                            patches.shape@[0] as int,
                            crate::tensor::extent(x.meta.shape[2]) / patches.shape@[2] as int,
                            crate::tensor::extent(x.meta.shape[3]) / patches.shape@[3] as int,
                        ),
                    );
                },
            }
        },
    }
}

} // verus!
