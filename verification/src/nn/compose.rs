//! Networks made of one operator call, and of two networks in a row.

use crate::arg::{arg_view, Arg};
use crate::ctx::name::plain;
use crate::ctx::nn_ctx::{Context, ScopeV};
use crate::nn::{launched, refuse, unfit, NNError, NuralNetwork, Outcome};
use crate::tensor::{metas_of, tensors_view, MetaV, Tensor, TensorMeta, TensorV};
use vstd::prelude::*;

verus! {

/// The network that is one call of the operator `op` with `arg` on all its
/// inputs, under the name `name`.
#[derive(Debug)]
pub struct Call {
    pub name: String,
    pub op: String,
    pub arg: Option<Arg>,
}

impl<T> NuralNetwork<T> for Call {
    /// Any inputs.
    open spec fn accepts(&self, inputs: Seq<MetaV>) -> bool {
        true
    }

    /// The name of the call is plain.
    open spec fn well_named(&self) -> bool {
        plain(ScopeV::<T>::call_base(self.name@, self.op@))
    }

    fn admits(&self, inputs: &Vec<TensorMeta>) -> (r: bool) {
        true
    }

    /// Calls the operator and returns what it yields.
    open spec fn outcome(&self, scope: ScopeV<T>, inputs: Seq<TensorV>) -> Outcome<T> {
        let (scope, called) = scope.call(self.name@, self.op@, arg_view(self.arg), inputs);
        match called {
            Ok(outputs) => Ok((scope, outputs)),
            Err(e) => Err(e),
        }
    }

    fn launch<'g>(self, inputs: Vec<Tensor>, ctx: Context<'g, T>) -> (r: Result<
        (Context<'g, T>, Vec<Tensor>),
        NNError,
    >) {
        let mut ctx = ctx;
        let Call { name, op, arg } = self;
        let outputs = ctx.call(name.as_str(), op.as_str(), arg, inputs)?;
        Ok((ctx, outputs))
    }
}

/// The network that binds its first input to `item` as the external `name`,
/// to be kept when the graph has run, and hands all its inputs on.
#[derive(Debug)]
pub struct Save<T> {
    pub name: String,
    pub item: T,
}

impl<T> NuralNetwork<T> for Save<T> {
    /// A tensor to keep.
    open spec fn accepts(&self, inputs: Seq<MetaV>) -> bool {
        inputs.len() >= 1
    }

    /// No call and no sub-scope is named.
    open spec fn well_named(&self) -> bool {
        true
    }

    fn admits(&self, inputs: &Vec<TensorMeta>) -> (r: bool) {
        inputs.len() >= 1
    }

    /// Saves the first input and returns the inputs.
    open spec fn outcome(&self, scope: ScopeV<T>, inputs: Seq<TensorV>) -> Outcome<T> {
        Ok((scope.save(self.name@, inputs[0], self.item), inputs))
    }

    fn launch<'g>(self, inputs: Vec<Tensor>, ctx: Context<'g, T>) -> (r: Result<
        (Context<'g, T>, Vec<Tensor>),
        NNError,
    >) {
        let mut ctx = ctx;
        let Save { name, item } = self;
        assert(tensors_view(inputs@)[0] == inputs@[0]@);
        ctx.save_external(name.as_str(), inputs[0].duplicate(), item);
        Ok((ctx, inputs))
    }
}

/// Two networks in a row, each in a sub-scope of its own name: the second
/// is launched on what the first returns.
#[derive(Debug)]
pub struct Chain<A, B> {
    pub first: (String, A),
    pub second: (String, B),
}

impl<T, A: NuralNetwork<T>, B: NuralNetwork<T>> NuralNetwork<T> for Chain<A, B> {
    /// What the first network accepts.
    open spec fn accepts(&self, inputs: Seq<MetaV>) -> bool {
        self.first.1.accepts(inputs)
    }

    /// The names of the two sub-scopes are plain, and both networks are
    /// well named.
    open spec fn well_named(&self) -> bool {
        &&& plain(self.first.0@)
        &&& plain(self.second.0@)
        &&& self.first.1.well_named()
        &&& self.second.1.well_named()
    }

    fn admits(&self, inputs: &Vec<TensorMeta>) -> (r: bool) {
        self.first.1.admits(inputs)
    }

    /// Descends into the first network, refuses what the second does not
    /// accept of what the first returns, and else descends into the second.
    open spec fn outcome(&self, scope: ScopeV<T>, inputs: Seq<TensorV>) -> Outcome<T> {
        let (scope, between) = scope.trap(self.first.0@, self.first.1, inputs);
        match between {
            Err(e) => Err(e),
            Ok(between) => if !self.second.1.accepts(metas_of(between)) {
                Err(unfit(scope))
            } else {
                let (scope, outputs) = scope.trap(self.second.0@, self.second.1, between);
                match outputs {
                    Ok(outputs) => Ok((scope, outputs)),
                    Err(e) => Err(e),
                }
            },
        }
    }

    fn launch<'g>(self, inputs: Vec<Tensor>, ctx: Context<'g, T>) -> (r: Result<
        (Context<'g, T>, Vec<Tensor>),
        NNError,
    >) {
        let mut ctx = ctx;
        let Chain { first, second } = self;
        let between = ctx.trap(first.0.as_str(), first.1, inputs)?;
        let metas = crate::ctx::nn_ctx::metas_of_handles(&between);
        if !second.1.admits(&metas) {
            return Err(refuse(&ctx));
        }
        let outputs = ctx.trap(second.0.as_str(), second.1, between)?;
        Ok((ctx, outputs))
    }
}

} // verus!
