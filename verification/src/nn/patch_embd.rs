//! Patch embedding of an image: two convolutions over the patches, added,
//! then folded so that the patches of one merge window follow each other.

use crate::arg::{sizes_view, Arg};
use crate::ctx::nn_ctx::{lemma_piped_stops, piped, stages_view, Context, ScopeV, Stage, Step};
use crate::dim::DimV;
use crate::dtype::Dtype;
use crate::nn::distribution::{Distribution, TPError, TPTensor};
use crate::nn::{fits, NNError, NuralNetwork, Outcome};
use crate::op::layout::{merge_arg, merge_from, perm_arg, tile_arg, tile_into, transpose_by};
use crate::tensor::{
    dims_of, extent, int_shape, list1, list2, list3, tensors_view, MetaV, Tensor, TensorMeta,
    TensorV,
};
use vstd::prelude::*;

verus! {

/// The list of `a` and `b`.
pub fn pair(a: usize, b: usize) -> (r: Vec<usize>)
    ensures
        r@ == seq![a, b],
        sizes_view(r@) == seq![a as int, b as int],
{
    let mut v: Vec<usize> = Vec::new();
    v.push(a);
    v.push(b);
    proof {
        assert(sizes_view(v@) =~= seq![a as int, b as int]);
    }
    v
}

/// The list of `a`, `b`, `c` and `d`.
pub fn quad(a: usize, b: usize, c: usize, d: usize) -> (r: Vec<usize>)
    ensures
        r@ == seq![a, b, c, d],
        sizes_view(r@) == seq![a as int, b as int, c as int, d as int],
{
    let mut v: Vec<usize> = Vec::new();
    v.push(a);
    v.push(b);
    v.push(c);
    v.push(d);
    proof {
        assert(sizes_view(v@) =~= seq![a as int, b as int, c as int, d as int]);
    }
    v
}

/// The steps that fold embedded patches `[n, m, hp, wp]` into
/// `[n * hp * wp, m]`, two by two: the four patches of each window of two
/// rows and two columns end up next to each other.
pub open spec fn fold_stages(n: int, m: int, hp: int, wp: int) -> Seq<Stage> {
    seq![
        // [n, m, hp, wp] -> [n, hp, wp, m]
        ("transpose"@, Some(perm_arg(seq![0, 2, 3, 1]))),
        ("rearrange"@, None),
        // -> [n * hp / 2, 2, wp / 2, 2 * m]
        ("tile"@, Some(tile_arg(1, seq![hp / 2, 2]))),
        ("merge"@, Some(merge_arg(0, 2))),
        ("tile"@, Some(tile_arg(2, seq![wp / 2, 2]))),
        ("merge"@, Some(merge_arg(3, 2))),
        // -> [n * hp / 2, wp / 2, 2, 2 * m]
        ("transpose"@, Some(perm_arg(seq![0, 2, 1, 3]))),
        ("rearrange"@, None),
        // -> [n, hp * wp, m]
        ("tile"@, Some(tile_arg(0, seq![n, hp / 2]))),
        ("merge"@, Some(merge_arg(1, 3))),
        ("tile"@, Some(tile_arg(2, seq![2, m]))),
        ("merge"@, Some(merge_arg(1, 2))),
        // -> [n * hp * wp, m]
        ("merge"@, Some(merge_arg(0, 2))),
        ("rearrange"@, None),
    ]
}

/// The steps that fold embedded patches.
pub fn fold_steps(n: usize, m: usize, hp: usize, wp: usize) -> (r: Vec<(String, Option<Arg>)>)
    requires
        n <= i64::MAX,
        m <= i64::MAX,
    ensures
        stages_view(r@) == fold_stages(n as int, m as int, hp as int, wp as int),
{
    let mut steps: Vec<(String, Option<Arg>)> = Vec::new();
    steps.push(("transpose".to_owned(), Some(transpose_by(quad(0, 2, 3, 1).as_slice()))));
    steps.push(("rearrange".to_owned(), None));
    steps.push(("tile".to_owned(), Some(tile_into(1, pair(hp / 2, 2).as_slice()))));
    steps.push(("merge".to_owned(), Some(merge_from(0, 2))));
    steps.push(("tile".to_owned(), Some(tile_into(2, pair(wp / 2, 2).as_slice()))));
    steps.push(("merge".to_owned(), Some(merge_from(3, 2))));
    steps.push(("transpose".to_owned(), Some(transpose_by(quad(0, 2, 1, 3).as_slice()))));
    steps.push(("rearrange".to_owned(), None));
    steps.push(("tile".to_owned(), Some(tile_into(0, pair(n, hp / 2).as_slice()))));
    steps.push(("merge".to_owned(), Some(merge_from(1, 3))));
    steps.push(("tile".to_owned(), Some(tile_into(2, pair(2, m).as_slice()))));
    steps.push(("merge".to_owned(), Some(merge_from(1, 2))));
    steps.push(("merge".to_owned(), Some(merge_from(0, 2))));
    steps.push(("rearrange".to_owned(), None));
    proof {
        assert(stages_view(steps@) =~= fold_stages(n as int, m as int, hp as int, wp as int));
    }
    steps
}

/// Embeds the patches of one image by two convolutions whose kernels have
/// the shape `shape`, `[m, channels, k, k]`.
#[derive(Clone, Debug)]
pub struct PatchEmbd<T> {
    pub dt: Dtype,
    pub shape: [usize; 4],
    pub patch_embd: T,
    pub patch_embd1: T,
}

/// The names that the patch embedding gives are distinct.
pub proof fn lemma_patch_names()
    ensures
        "patch_embd"@ != "patch_embd1"@,
        "conv"@ != "add"@,
        "conv"@ != "transpose"@,
        "conv"@ != "rearrange"@,
        "conv"@ != "tile"@,
        "conv"@ != "merge"@,
        "add"@ != "transpose"@,
        "add"@ != "rearrange"@,
        "add"@ != "tile"@,
        "add"@ != "merge"@,
        "transpose"@ != "rearrange"@,
        "transpose"@ != "tile"@,
        "transpose"@ != "merge"@,
        "rearrange"@ != "tile"@,
        "rearrange"@ != "merge"@,
        "tile"@ != "merge"@,
{
    reveal_strlit("patch_embd");
    reveal_strlit("patch_embd1");
    reveal_strlit("conv");
    reveal_strlit("add");
    reveal_strlit("transpose");
    reveal_strlit("rearrange");
    reveal_strlit("tile");
    reveal_strlit("merge");
    assert("patch_embd"@.len() == 10);
    assert("patch_embd1"@.len() == 11);
    assert("conv"@.len() == 4);
    assert("conv"@[0] == 'c');
    assert("add"@.len() == 3);
    assert("transpose"@.len() == 9);
    assert("transpose"@[0] == 't');
    assert("rearrange"@.len() == 9);
    assert("rearrange"@[0] == 'r');
    assert("tile"@.len() == 4);
    assert("tile"@[0] == 't');
    assert("merge"@.len() == 5);
}

impl<T> PatchEmbd<T> {
    /// The same network for the shards `dist`. No rule says how a patch
    /// embedding is cut: it is handed on whole where `dist` is all there is,
    /// and refused otherwise.
    pub fn tensor_parallel(self, dist: Distribution) -> (r: Result<PatchEmbd<TPTensor<T>>, TPError>)
        ensures
            match r {
                Ok(p) => dist.len == dist.total && p == self.spec_whole(),
                Err(e) => dist.len != dist.total && e == TPError::Unsupported,
            },
    {
        let PatchEmbd { dt, shape, patch_embd, patch_embd1 } = self;
        if dist.is_mono() {
            Ok(
                PatchEmbd {
                    dt,
                    shape,
                    patch_embd: TPTensor::from(patch_embd),
                    patch_embd1: TPTensor::from(patch_embd1),
                },
            )
        } else {
            Err(TPError::Unsupported)
        }
    }
}

impl<T> NuralNetwork<T> for PatchEmbd<T> {
    /// One image `[1, channels, h, w]` of known extents and the bias, for a
    /// square kernel that is not empty.
    open spec fn accepts(&self, inputs: Seq<MetaV>) -> bool {
        &&& inputs.len() == 2
        &&& inputs[0].shape.len() == 4
        &&& inputs[0].shape[0] == DimV::Int(1)
        &&& inputs[0].shape[1] == DimV::Int(self.shape@[1] as int)
        &&& inputs[0].shape[2] is Int
        &&& inputs[0].shape[3] is Int
        &&& self.shape@[2] == self.shape@[3]
        &&& self.shape@[2] > 0
        &&& self.shape@[0] <= i64::MAX
    }

    open spec fn well_named(&self) -> bool {
        true
    }

    fn admits(&self, inputs: &Vec<TensorMeta>) -> (r: bool) {
        if inputs.len() != 2 || inputs[0].shape.len() != 4 {
            return false;
        }
        let x = &inputs[0];
        let one = match x.shape[0].value() {
            Some(n) => n == 1,
            None => false,
        };
        let channels = match x.shape[1].value() {
            Some(c) => c == self.shape[1],
            None => false,
        };
        one && channels && x.shape[2].value().is_some() && x.shape[3].value().is_some()
            && self.shape[2] == self.shape[3] && self.shape[2] > 0 && fits(self.shape[0])
    }

    /// Loads the two kernels, convolves the image with each, adds the two
    /// results and folds the sum.
    open spec fn outcome(&self, scope: ScopeV<T>, inputs: Seq<TensorV>) -> Outcome<T> {
        let x = inputs[0];
        let bias = inputs[1];
        let kernel = MetaV { dt: self.dt, shape: int_shape(self.shape@) };
        let (scope, w) = scope.load("patch_embd"@, kernel, self.patch_embd);
        let (scope, w1) = scope.load("patch_embd1"@, kernel, self.patch_embd1);
        let (scope, first) = scope.apply("conv"@, None, seq![x, w, bias]);
        match first {
            Err(e) => Err(e),
            Ok(y0) => {
                let (scope, second) = scope.apply("conv"@, None, seq![x, w1, bias]);
                match second {
                    Err(e) => Err(e),
                    Ok(y1) => {
                        let (scope, folded) = piped(
                            scope.apply("add"@, None, seq![y0, y1]),
                            fold_stages(
                                extent(x.meta.shape[0]),
                                self.shape@[0] as int,
                                extent(x.meta.shape[2]) / self.shape@[2] as int,
                                extent(x.meta.shape[3]) / self.shape@[3] as int,
                            ),
                        );
                        match folded {
                            Ok(y) => Ok((scope, seq![y])),
                            Err(e) => Err(e),
                        }
                    },
                }
            },
        }
    }

    fn launch<'g>(self, inputs: Vec<Tensor>, ctx: Context<'g, T>) -> (r: Result<
        (Context<'g, T>, Vec<Tensor>),
        NNError,
    >) {
        let mut ctx = ctx;
        proof {
            crate::ctx::name::lemma_names_plain();
        }
        let PatchEmbd { dt, shape, patch_embd, patch_embd1 } = self;
        proof {
            lemma_patch_names();
            assert(tensors_view(inputs@)[0] == inputs@[0]@);
            assert(tensors_view(inputs@)[1] == inputs@[1]@);
        }
        let x = &inputs[0];
        let bias = &inputs[1];
        let n = x.extent_at(0);
        let height = x.extent_at(2);
        let width = x.extent_at(3);
        let m = shape[0];
        let hp = height / shape[2];
        let wp = width / shape[3];
        let w = ctx.load_external("patch_embd", dt, dims_of(shape.as_slice()), patch_embd);
        let w1 = ctx.load_external("patch_embd1", dt, dims_of(shape.as_slice()), patch_embd1);
        let y0 = ctx.apply("conv", None, list3(x.duplicate(), w, bias.duplicate()))?;
        let y1 = ctx.apply("conv", None, list3(x.duplicate(), w1, bias.duplicate()))?;
        let ghost before = ctx@;
        let ghost stages = fold_stages(n as int, m as int, hp as int, wp as int);
        let sum = match ctx.apply("add", None, list2(y0, y1)) {
            Ok(sum) => sum,
            Err(e) => {
                proof {
                    let stopped: Step<T> = (ctx@, Err(e@));
                    assert(stages.subrange(0, 0) =~= Seq::<Stage>::empty());
                    lemma_piped_stops(stopped, stages, 0);
                }
                return Err(e);
            },
        };
        let y = ctx.pipeline(sum, fold_steps(n, m, hp, wp))?;
        Ok((ctx, list1(y)))
    }
}

} // verus!
