//! The builder: the operator library and the scoped context through which
//! networks emit their nodes.

pub mod name;
pub mod nn_ctx;
pub mod tidy;

use crate::op::Op;
use vstd::hash_map::StringHashMap;
use vstd::prelude::*;

verus! {

/// Operators by name.
pub struct OpLib(StringHashMap<Op>);

impl View for OpLib {
    type V = Map<Seq<char>, Op>;

    closed spec fn view(&self) -> Map<Seq<char>, Op> {
        self.0@
    }
}

impl OpLib {
    /// The library without operators.
    pub fn new() -> (lib: OpLib)
        ensures
            lib@ == Map::<Seq<char>, Op>::empty(),
    {
        OpLib(StringHashMap::new())
    }

    /// The operator registered as `name`, if there is one.
    pub fn get(&self, name: &str) -> (r: Option<Op>)
        ensures
            r == (if self@.contains_key(name@) {
                Some(self@[name@])
            } else {
                None
            }),
    {
        match self.0.get(name) {
            Some(op) => Some(*op),
            None => None,
        }
    }
}

/// Entry point of graph construction: collects the operators, then builds
/// graphs over them.
pub struct GraphBuilder {
    op_lib: OpLib,
}

impl GraphBuilder {
    /// The operators registered so far.
    pub closed spec fn lib(&self) -> Map<Seq<char>, Op> {
        self.op_lib@
    }

    /// A builder without operators.
    pub fn new() -> (b: GraphBuilder)
        ensures
            b.lib() == Map::<Seq<char>, Op>::empty(),
    {
        GraphBuilder { op_lib: OpLib::new() }
    }

    /// Registers `op` as `name`, and hands the builder back for the next
    /// registration. A name is registered once.
    pub fn register_op(&mut self, name: &str, op: Op) -> (r: &mut GraphBuilder)
        requires
            !old(self).lib().contains_key(name@),
        ensures
            r.lib() == old(self).lib().insert(name@, op),
            *final(self) == *final(r),
    {
        self.op_lib.0.insert(name.to_owned(), op);
        self
    }

    /// The library.
    pub fn op_lib(&self) -> (lib: &OpLib)
        ensures
            lib@ == self.lib(),
    {
        &self.op_lib
    }
}

} // verus!
