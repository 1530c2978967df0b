//! Tensor extents: concrete integers or named symbols, and their unification.

use vstd::prelude::*;

verus! {

/// One extent of a tensor shape.
#[derive(Clone, Debug, PartialEq, Eq, Hash)]
pub enum Dim {
    /// A known, non-negative extent.
    Int(usize),
    /// An extent that is only known by name.
    Sym(String),
}

/// Mathematical value of a [`Dim`].
pub enum DimV {
    Int(int),
    Sym(Seq<char>),
}

impl View for Dim {
    type V = DimV;

    open spec fn view(&self) -> DimV {
        match self {
            Dim::Int(n) => DimV::Int(*n as int),
            Dim::Sym(s) => DimV::Sym(s@),
        }
    }
}

/// Unification of two extents: equal integers unify to themselves, an integer
/// resolves a symbol, a symbol unifies only with itself.
pub open spec fn unified(a: DimV, b: DimV) -> Option<DimV> {
    match (a, b) {
        (DimV::Int(x), DimV::Int(y)) => if x == y {
            Some(a)
        } else {
            None
        },
        (DimV::Int(_), DimV::Sym(_)) => Some(a),
        (DimV::Sym(_), DimV::Int(_)) => Some(b),
        (DimV::Sym(s), DimV::Sym(t)) => if s == t {
            Some(a)
        } else {
            None
        },
    }
}

/// Unification of a whole list, taken from the left; `None` for an empty list
/// or as soon as two neighbours of the running result fail to unify.
pub open spec fn unified_all(dims: Seq<DimV>) -> Option<DimV>
    decreases dims.len(),
{
    if dims.len() == 0 {
        None
    } else if dims.len() == 1 {
        Some(dims[0])
    } else {
        match unified_all(dims.drop_last()) {
            Some(d) => unified(d, dims.last()),
            None => None,
        }
    }
}

/// Views of a list of extents.
pub open spec fn dims_view(dims: Seq<Dim>) -> Seq<DimV> {
    Seq::new(dims.len(), |i: int| dims[i]@)
}

impl Dim {
    /// The extent as a number, if it is concrete.
    pub fn value(&self) -> (r: Option<usize>)
        ensures
            r == match self@ {
                DimV::Int(n) => Some(n as usize),
                DimV::Sym(_) => None,
            },
    {
        match self {
            Dim::Int(n) => Some(*n),
            Dim::Sym(_) => None,
        }
    }

    /// Structural comparison.
    pub fn same(&self, other: &Dim) -> (r: bool)
        ensures
            r == (self@ == other@),
    {
        match (self, other) {
            (Dim::Int(x), Dim::Int(y)) => *x == *y,
            (Dim::Sym(s), Dim::Sym(t)) => *s == *t,
            _ => false,
        }
    }

    /// A copy with the same value.
    pub fn duplicate(&self) -> (r: Dim)
        ensures
            r@ == self@,
    {
        match self {
            Dim::Int(n) => Dim::Int(*n),
            Dim::Sym(s) => Dim::Sym(s.clone()),
        }
    }

    /// Unifies two extents.
    pub fn unify(&self, other: &Dim) -> (r: Option<Dim>)
        ensures
            match r {
                Some(d) => unified(self@, other@) == Some(d@),
                None => unified(self@, other@) is None,
            },
    {
        match (self, other) {
            (Dim::Int(x), Dim::Int(y)) => if *x == *y {
                Some(Dim::Int(*x))
            } else {
                None
            },
            (Dim::Int(x), Dim::Sym(_)) => Some(Dim::Int(*x)),
            (Dim::Sym(_), Dim::Int(y)) => Some(Dim::Int(*y)),
            (Dim::Sym(s), Dim::Sym(t)) => if *s == *t {
                Some(Dim::Sym(s.clone()))
            } else {
                None
            },
        }
    }
}

/// Unifies every extent of `dims`, from the left.
pub fn make_eq(dims: &[Dim]) -> (r: Option<Dim>)
    ensures
        match r {
            Some(d) => unified_all(dims_view(dims@)) == Some(d@),
            None => unified_all(dims_view(dims@)) is None,
        },
{
    if dims.len() == 0 {
        return None;
    }
    let mut acc = dims[0].duplicate();
    let mut i: usize = 1;
    proof {
        assert(dims_view(dims@).subrange(0, 1) =~= seq![dims@[0]@]);
    }
    while i < dims.len()
        invariant
            1 <= i <= dims.len(),
            unified_all(dims_view(dims@).subrange(0, i as int)) == Some(acc@),
        decreases dims.len() - i,
    {
        proof {
            let all = dims_view(dims@);
            assert(all.subrange(0, i + 1).drop_last() =~= all.subrange(0, i as int));
            assert(all.subrange(0, i + 1).last() == dims@[i as int]@);
        }
        match acc.unify(&dims[i]) {
            Some(d) => {
                acc = d;
            },
            None => {
                proof {
                    lemma_unified_all_prefix_fails(dims_view(dims@), i + 1);
                }
                return None;
            },
        }
        i += 1;
    }
    proof {
        assert(dims_view(dims@).subrange(0, i as int) =~= dims_view(dims@));
    }
    Some(acc)
}

/// Once a prefix fails to unify, every longer list fails too.
pub proof fn lemma_unified_all_prefix_fails(dims: Seq<DimV>, n: int)
    requires
        0 <= n <= dims.len(),
        n > 0,
        unified_all(dims.subrange(0, n)) is None,
    ensures
        unified_all(dims) is None,
    decreases dims.len() - n,
{
    if n < dims.len() {
        assert(dims.subrange(0, n + 1).drop_last() =~= dims.subrange(0, n));
        lemma_unified_all_prefix_fails(dims, n + 1);
    } else {
        assert(dims.subrange(0, n) =~= dims);
    }
}

} // verus!
