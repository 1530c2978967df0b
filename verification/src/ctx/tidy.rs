//! The discipline of names: as long as every name given to a call or to a
//! sub-scope is plain, no two nodes of a graph have the same name.

use crate::arg::ArgV;
use crate::ctx::name::{
    has_prefix, label, lemma_call_under, lemma_label_injective, lemma_label_shape,
    lemma_sub_scopes_differ, lemma_under_sub_scope, plain, under,
};
use crate::ctx::nn_ctx::{count, Counts, ScopeV};
use crate::graph::GraphV;
use crate::tensor::TensorV;
use vstd::prelude::*;

verus! {

/// No two nodes of `g` have the same name.
pub open spec fn names_unique<T>(g: GraphV<T>) -> bool {
    forall|i: int, j: int| 0 <= i < j < g.nodes.len() ==> g.nodes[i].name != g.nodes[j].name
}

/// `name` is the name of occurrence `k` of the plain call name `b` in the
/// scope at `path`, and the scope has counted that occurrence.
pub open spec fn is_call_of(path: Seq<char>, ops: Counts, name: Seq<char>, b: Seq<char>, k: nat)
    -> bool {
    plain(b) && k < count(ops, b) && name == path + seq![':'] + label(b, k)
}

/// `name` lies within occurrence `k` of the plain sub-scope name `b` of the
/// scope at `path`, and the scope has counted that occurrence.
pub open spec fn is_within(path: Seq<char>, sub: Counts, name: Seq<char>, b: Seq<char>, k: nat)
    -> bool {
    plain(b) && k < count(sub, b) && under(name, path + seq!['.'] + label(b, k))
}

/// If `name` looks like a call of the scope at `path`, it is one that the
/// scope has counted, and likewise if it looks like something of one of
/// its sub-scopes.
pub open spec fn accounted(path: Seq<char>, ops: Counts, sub: Counts, name: Seq<char>) -> bool {
    &&& has_prefix(name, path + seq![':']) ==> exists|b: Seq<char>, k: nat| #[trigger]
        is_call_of(path, ops, name, b, k)
    &&& has_prefix(name, path + seq!['.']) ==> exists|b: Seq<char>, k: nat| #[trigger]
        is_within(path, sub, name, b, k)
}

impl<T> ScopeV<T> {
    /// The names of the graph are in order, seen from this scope, which was
    /// entered when the graph had `since` nodes: no two nodes have the same
    /// name, every node that looks like it belongs to this scope has been
    /// counted by it, and every node added since lies within it.
    #[verifier::opaque]
    pub open spec fn tidy(self, since: nat) -> bool {
        &&& names_unique(self.graph)
        &&& forall|j: int|
            0 <= j < self.graph.nodes.len() ==> accounted(
                self.path,
                self.ops,
                self.sub,
                #[trigger] self.graph.nodes[j].name,
            )
        &&& forall|j: int|
            since <= j < self.graph.nodes.len() ==> under(
                #[trigger] self.graph.nodes[j].name,
                self.path,
            )
    }
}

/// In a graph whose names are in order no two nodes have the same name.
pub proof fn lemma_tidy_names_unique<T>(scope: ScopeV<T>, since: nat, i: int, j: int)
    requires
        scope.tidy(since),
        0 <= i < j < scope.graph.nodes.len(),
    ensures
        scope.graph.nodes[i].name != scope.graph.nodes[j].name,
{
    reveal(ScopeV::tidy);
}

/// Names that are accounted for stay so when the counts grow.
pub proof fn lemma_accounted_grows(
    path: Seq<char>,
    ops: Counts,
    sub: Counts,
    ops2: Counts,
    sub2: Counts,
    name: Seq<char>,
)
    requires
        accounted(path, ops, sub, name),
        forall|b: Seq<char>| count(ops, b) <= count(ops2, b),
        forall|b: Seq<char>| count(sub, b) <= count(sub2, b),
    ensures
        accounted(path, ops2, sub2, name),
{
    if has_prefix(name, path + seq![':']) {
        let (b, k) = choose|b: Seq<char>, k: nat| #[trigger] is_call_of(path, ops, name, b, k);
        assert(count(ops, b) <= count(ops2, b));
        assert(is_call_of(path, ops2, name, b, k));
    }
    if has_prefix(name, path + seq!['.']) {
        let (b, k) = choose|b: Seq<char>, k: nat| #[trigger] is_within(path, sub, name, b, k);
        assert(count(sub, b) <= count(sub2, b));
        assert(is_within(path, sub2, name, b, k));
    }
}

/// A graph without nodes is tidy from any scope.
pub proof fn lemma_empty_tidy<T>(scope: ScopeV<T>, since: nat)
    requires
        scope.graph.nodes.len() == 0,
    ensures
        scope.tidy(since),
{
    reveal(ScopeV::tidy);
}

/// Tidiness looks at the nodes, the path and the counts only.
pub proof fn lemma_same_names_tidy<T>(scope: ScopeV<T>, other: ScopeV<T>, since: nat)
    requires
        scope.tidy(since),
        other.graph.nodes == scope.graph.nodes,
        other.path == scope.path,
        other.ops == scope.ops,
        other.sub == scope.sub,
    ensures
        other.tidy(since),
{
    reveal(ScopeV::tidy);
}

/// A call under a plain name keeps the names in order.
pub proof fn lemma_call_tidy<T>(
    scope: ScopeV<T>,
    name: Seq<char>,
    op: Seq<char>,
    arg: Option<ArgV>,
    inputs: Seq<TensorV>,
    since: nat,
)
    requires
        scope.tidy(since),
        plain(ScopeV::<T>::call_base(name, op)),
        count(scope.ops, ScopeV::<T>::call_base(name, op)) < usize::MAX,
    ensures
        scope.call(name, op, arg, inputs).0.tidy(since),
{
    reveal(ScopeV::tidy);
    reveal(ScopeV::call);
    let base = ScopeV::<T>::call_base(name, op);
    let c = count(scope.ops, base);
    let after = scope.call(name, op, arg, inputs).0;
    let fq = scope.call_name(name, op);
    let path = scope.path;
    lemma_call_under(path, label(base, c));
    assert forall|b: Seq<char>| count(scope.ops, b) <= count(after.ops, b) by {}
    assert forall|j: int| 0 <= j < after.graph.nodes.len() implies accounted(
        path,
        after.ops,
        after.sub,
        #[trigger] after.graph.nodes[j].name,
    ) by {
        if j < scope.graph.nodes.len() {
            assert(after.graph.nodes[j] == scope.graph.nodes[j]);
            lemma_accounted_grows(
                path,
                scope.ops,
                scope.sub,
                after.ops,
                after.sub,
                scope.graph.nodes[j].name,
            );
        } else {
            assert(after.graph.nodes[j].name == fq);
            assert(is_call_of(path, after.ops, fq, base, c));
        }
    }
    assert forall|i: int, j: int| 0 <= i < j < after.graph.nodes.len() implies after.graph.nodes[i].name
        != after.graph.nodes[j].name by {
        if j >= scope.graph.nodes.len() {
            let other = scope.graph.nodes[i].name;
            assert(after.graph.nodes[i] == scope.graph.nodes[i]);
            if other == fq {
                assert(accounted(path, scope.ops, scope.sub, other));
                let (b, k) = choose|b: Seq<char>, k: nat| #[trigger]
                    is_call_of(path, scope.ops, other, b, k);
                let head = path + seq![':'];
                assert(label(b, k) =~= (head + label(b, k)).subrange(
                    head.len() as int,
                    (head + label(b, k)).len() as int,
                ));
                assert(label(base, c) =~= (head + label(base, c)).subrange(
                    head.len() as int,
                    (head + label(base, c)).len() as int,
                ));
                lemma_label_injective(b, k, base, c);
            }
        } else {
            assert(after.graph.nodes[i] == scope.graph.nodes[i]);
            assert(after.graph.nodes[j] == scope.graph.nodes[j]);
        }
    }
    assert forall|j: int| since <= j < after.graph.nodes.len() implies under(
        #[trigger] after.graph.nodes[j].name,
        path,
    ) by {
        if j < scope.graph.nodes.len() {
            assert(after.graph.nodes[j] == scope.graph.nodes[j]);
        }
    }
}

/// The sub-scope that is entered under a plain name finds the names in
/// order.
pub proof fn lemma_enter_tidy<T>(scope: ScopeV<T>, name: Seq<char>, since: nat)
    requires
        scope.tidy(since),
        plain(name),
    ensures
        ScopeV::opened(scope.sub_path(name), scope.graph, scope.lib).tidy(scope.graph.nodes.len()),
{
    reveal(ScopeV::tidy);
    let c = count(scope.sub, name);
    let path = scope.path;
    let inner = ScopeV::opened(scope.sub_path(name), scope.graph, scope.lib);
    lemma_label_shape(name, c);
    assert forall|j: int| 0 <= j < inner.graph.nodes.len() implies accounted(
        inner.path,
        inner.ops,
        inner.sub,
        #[trigger] inner.graph.nodes[j].name,
    ) by {
        let other = scope.graph.nodes[j].name;
        if under(other, inner.path) {
            assert(inner.path == path + seq!['.'] + label(name, c));
            lemma_under_sub_scope(other, path, label(name, c));
            assert(accounted(path, scope.ops, scope.sub, other));
            let (b, k) = choose|b: Seq<char>, k: nat| #[trigger]
                is_within(path, scope.sub, other, b, k);
            lemma_label_shape(b, k);
            lemma_sub_scopes_differ(other, path, label(b, k), label(name, c));
            lemma_label_injective(b, k, name, c);
        }
    }
}

/// Coming back from a sub-scope that was entered under a plain name and
/// that has kept the names in order, the names are in order.
pub proof fn lemma_leave_tidy<T>(scope: ScopeV<T>, name: Seq<char>, inner: ScopeV<T>, since: nat)
    requires
        scope.tidy(since),
        plain(name),
        count(scope.sub, name) < usize::MAX,
        inner.tidy(scope.graph.nodes.len()),
        inner.path == scope.sub_path(name),
        scope.graph.nodes.is_prefix_of(inner.graph.nodes),
    ensures
        (ScopeV {
            graph: inner.graph,
            sub: scope.sub.insert(name, (count(scope.sub, name) + 1) as usize),
            ..scope
        }).tidy(since),
{
    reveal(ScopeV::tidy);
    let c = count(scope.sub, name);
    let path = scope.path;
    let sub = scope.sub.insert(name, (c + 1) as usize);
    let after = ScopeV { graph: inner.graph, sub, ..scope };
    assert forall|b: Seq<char>| count(scope.sub, b) <= count(sub, b) by {}
    assert forall|j: int| 0 <= j < after.graph.nodes.len() implies accounted(
        path,
        after.ops,
        after.sub,
        #[trigger] after.graph.nodes[j].name,
    ) && (since <= j ==> under(after.graph.nodes[j].name, path)) by {
        let other = after.graph.nodes[j].name;
        if j < scope.graph.nodes.len() {
            assert(after.graph.nodes[j] == scope.graph.nodes[j]);
            lemma_accounted_grows(path, scope.ops, scope.sub, after.ops, after.sub, other);
        } else {
            assert(under(inner.graph.nodes[j].name, inner.path));
            lemma_under_sub_scope(other, path, label(name, c));
            assert(is_within(path, sub, other, name, c));
        }
    }
}

} // verus!
