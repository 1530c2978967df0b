//! The tagged value that carries operator parameters.

use vstd::prelude::*;

verus! {

/// Parameter of an operator call.
#[derive(Debug, PartialEq, Eq)]
pub enum Arg {
    Int(i64),
    /// A 64-bit IEEE-754 number, kept by its bit pattern.
    Float(u64),
    Str(String),
    Bool(bool),
    Arr(Vec<Arg>),
    /// Entries in insertion order.
    Dict(Vec<(String, Arg)>),
    /// No value.
    Null,
}

/// Mathematical value of an [`Arg`].
pub enum ArgV {
    Int(int),
    Float(u64),
    Str(Seq<char>),
    Bool(bool),
    Arr(Seq<ArgV>),
    Dict(Seq<(Seq<char>, ArgV)>),
    Null,
}

impl Arg {
    /// The mathematical value.
    pub open spec fn value(self) -> ArgV
        decreases self,
    {
        match self {
            Arg::Int(n) => ArgV::Int(n as int),
            Arg::Float(bits) => ArgV::Float(bits),
            Arg::Str(s) => ArgV::Str(s@),
            Arg::Bool(b) => ArgV::Bool(b),
            Arg::Arr(items) => ArgV::Arr(
                Seq::new(
                    items@.len(),
                    |i: int|
                        if 0 <= i < items@.len() {
                            items@[i].value()
                        } else {
                            ArgV::Null
                        },
                ),
            ),
            Arg::Dict(items) => ArgV::Dict(
                Seq::new(
                    items@.len(),
                    |i: int|
                        if 0 <= i < items@.len() {
                            (items@[i].0@, items@[i].1.value())
                        } else {
                            (Seq::empty(), ArgV::Null)
                        },
                ),
            ),
            Arg::Null => ArgV::Null,
        }
    }
}

impl View for Arg {
    type V = ArgV;

    open spec fn view(&self) -> ArgV {
        self.value()
    }
}

/// Views of a list of arguments.
pub open spec fn args_view(items: Seq<Arg>) -> Seq<ArgV> {
    Seq::new(items.len(), |i: int| items[i]@)
}

/// Views of a list of dictionary entries.
pub open spec fn entries_view(items: Seq<(String, Arg)>) -> Seq<(Seq<char>, ArgV)> {
    Seq::new(items.len(), |i: int| (items[i].0@, items[i].1@))
}

/// The value that an optional argument stands for.
pub open spec fn arg_view(arg: Option<Arg>) -> Option<ArgV> {
    match arg {
        Some(a) => Some(a@),
        None => None,
    }
}

/// The view of an array is the array of the views.
pub proof fn lemma_arr_view(items: Vec<Arg>)
    ensures
        Arg::Arr(items)@ == ArgV::Arr(args_view(items@)),
{
    let a = Arg::Arr(items);
    reveal_with_fuel(Arg::value, 2);
    assert(a@ is Arr);
    assert(a@->Arr_0.len() == items@.len());
    assert forall|i: int| 0 <= i < items@.len() implies a@->Arr_0[i] == args_view(items@)[i] by {}
    assert(a@->Arr_0 =~= args_view(items@));
}

/// The view of a dictionary is the list of the entries' views.
pub proof fn lemma_dict_view(items: Vec<(String, Arg)>)
    ensures
        Arg::Dict(items)@ == ArgV::Dict(entries_view(items@)),
{
    let a = Arg::Dict(items);
    reveal_with_fuel(Arg::value, 2);
    assert(a@ is Dict);
    assert(a@->Dict_0.len() == items@.len());
    assert forall|i: int| 0 <= i < items@.len() implies a@->Dict_0[i] == entries_view(
        items@,
    )[i] by {}
    assert(a@->Dict_0 =~= entries_view(items@));
}

/// Value stored under `key` by the first entry of `items` that carries it.
pub open spec fn lookup(items: Seq<(Seq<char>, ArgV)>, key: Seq<char>) -> Option<ArgV>
    decreases items.len(),
{
    if items.len() == 0 {
        None
    } else if items[0].0 == key {
        Some(items[0].1)
    } else {
        lookup(items.subrange(1, items.len() as int), key)
    }
}

/// Every key of `items` is one of `allowed`.
pub open spec fn keys_within(items: Seq<(Seq<char>, ArgV)>, allowed: Seq<Seq<char>>) -> bool {
    forall|i: int| 0 <= i < items.len() ==> allowed.contains(#[trigger] items[i].0)
}

/// The integers of `items`, if every one of them is an `Int`.
pub open spec fn ints_of(items: Seq<ArgV>) -> Option<Seq<int>> {
    if forall|i: int| 0 <= i < items.len() ==> #[trigger] items[i] is Int {
        Some(Seq::new(items.len(), |i: int| items[i]->Int_0))
    } else {
        None
    }
}

/// The array of the integers `vals`.
pub open spec fn int_arr(vals: Seq<int>) -> ArgV {
    ArgV::Arr(Seq::new(vals.len(), |i: int| ArgV::Int(vals[i])))
}

impl ArgV {
    /// The integer, if this is an `Int`.
    pub open spec fn as_int(self) -> Option<int> {
        match self {
            ArgV::Int(n) => Some(n),
            _ => None,
        }
    }

    /// The list of integers, if this is an `Arr` of `Int`s.
    pub open spec fn as_ints(self) -> Option<Seq<int>> {
        match self {
            ArgV::Arr(items) => ints_of(items),
            _ => None,
        }
    }

    /// The entry under `key`, if this is a `Dict` that has one.
    pub open spec fn get(self, key: Seq<char>) -> Option<ArgV> {
        match self {
            ArgV::Dict(items) => lookup(items, key),
            _ => None,
        }
    }

    /// This is a `Dict` and all its keys are among `allowed`.
    pub open spec fn dict_within(self, allowed: Seq<Seq<char>>) -> bool {
        match self {
            ArgV::Dict(items) => keys_within(items, allowed),
            _ => false,
        }
    }
}

/// Contents of a list of string slices.
pub open spec fn texts(names: Seq<&str>) -> Seq<Seq<char>> {
    Seq::new(names.len(), |i: int| names[i]@)
}

/// Values of a list of machine integers.
pub open spec fn ints_view(vals: Seq<i64>) -> Seq<int> {
    Seq::new(vals.len(), |i: int| vals[i] as int)
}

/// Values of a list of sizes.
pub open spec fn sizes_view(vals: Seq<usize>) -> Seq<int> {
    Seq::new(vals.len(), |i: int| vals[i] as int)
}

impl Arg {
    /// The array of the integers `vals`. Extents beyond `i64::MAX` do not
    /// occur in shapes that fit in memory; they are left out.
    pub fn ints(vals: &[usize]) -> (r: Arg)
        requires
            forall|i: int| 0 <= i < vals@.len() ==> vals@[i] <= i64::MAX,
        ensures
            r@ == int_arr(sizes_view(vals@)),
    {
        let mut items: Vec<Arg> = Vec::new();
        let mut i: usize = 0;
        while i < vals.len()
            invariant
                i <= vals.len(),
                items@.len() == i,
                forall|k: int| 0 <= k < vals@.len() ==> vals@[k] <= i64::MAX,
                forall|k: int| 0 <= k < i ==> (#[trigger] items@[k])@ == ArgV::Int(vals@[k] as int),
            decreases vals.len() - i,
        {
            items.push(Arg::Int(vals[i] as i64));
            i += 1;
        }
        proof {
            lemma_arr_view(items);
            assert(args_view(items@) =~= int_arr(sizes_view(vals@))->Arr_0);
        }
        Arg::Arr(items)
    }

    /// The dictionary with the one entry `key: val`.
    pub fn dict1(key: &str, val: Arg) -> (r: Arg)
        ensures
            r@ == ArgV::Dict(seq![(key@, val@)]),
    {
        let mut items: Vec<(String, Arg)> = Vec::new();
        items.push((key.to_owned(), val));
        proof {
            lemma_dict_view(items);
            assert(entries_view(items@) =~= seq![(key@, val@)]);
        }
        Arg::Dict(items)
    }

    /// The dictionary with the entries `k0: v0` and `k1: v1`, in that order.
    pub fn dict2(k0: &str, v0: Arg, k1: &str, v1: Arg) -> (r: Arg)
        ensures
            r@ == ArgV::Dict(seq![(k0@, v0@), (k1@, v1@)]),
    {
        let mut items: Vec<(String, Arg)> = Vec::new();
        items.push((k0.to_owned(), v0));
        items.push((k1.to_owned(), v1));
        proof {
            lemma_dict_view(items);
            assert(entries_view(items@) =~= seq![(k0@, v0@), (k1@, v1@)]);
        }
        Arg::Dict(items)
    }

    /// The dictionary with the three given entries, in that order.
    pub fn dict3(k0: &str, v0: Arg, k1: &str, v1: Arg, k2: &str, v2: Arg) -> (r: Arg)
        ensures
            r@ == ArgV::Dict(seq![(k0@, v0@), (k1@, v1@), (k2@, v2@)]),
    {
        let mut items: Vec<(String, Arg)> = Vec::new();
        items.push((k0.to_owned(), v0));
        items.push((k1.to_owned(), v1));
        items.push((k2.to_owned(), v2));
        proof {
            lemma_dict_view(items);
            assert(entries_view(items@) =~= seq![(k0@, v0@), (k1@, v1@), (k2@, v2@)]);
        }
        Arg::Dict(items)
    }

    /// The integer, if this is an `Int`.
    pub fn as_int(&self) -> (r: Option<i64>)
        ensures
            match r {
                Some(n) => self@.as_int() == Some(n as int),
                None => self@.as_int() is None,
            },
    {
        match self {
            Arg::Int(n) => Some(*n),
            _ => None,
        }
    }

    /// The list of integers, if this is an `Arr` of `Int`s.
    pub fn as_ints(&self) -> (r: Option<Vec<i64>>)
        ensures
            match r {
                Some(v) => self@.as_ints() == Some(ints_view(v@)),
                None => self@.as_ints() is None,
            },
    {
        match self {
            Arg::Arr(items) => {
                proof {
                    lemma_arr_view(*items);
                }
                collect_ints(items)
            },
            _ => None,
        }
    }

    /// The entry under `key`, if this is a `Dict` that has one.
    pub fn get(&self, key: &str) -> (r: Option<&Arg>)
        ensures
            match r {
                Some(a) => self@.get(key@) == Some(a@),
                None => self@.get(key@) is None,
            },
    {
        match self {
            Arg::Dict(items) => {
                proof {
                    lemma_dict_view(*items);
                }
                find(items, key)
            },
            _ => None,
        }
    }

    /// Whether this is a `Dict` whose keys are all among `allowed`.
    pub fn dict_within(&self, allowed: &[&str]) -> (r: bool)
        ensures
            r == self@.dict_within(texts(allowed@)),
    {
        match self {
            Arg::Dict(items) => {
                proof {
                    lemma_dict_view(*items);
                }
                all_within(items, allowed)
            },
            _ => false,
        }
    }
}

/// The integers of `items`, if every one of them is an `Int`.
pub fn collect_ints(items: &Vec<Arg>) -> (r: Option<Vec<i64>>)
    ensures
        match r {
            Some(v) => ints_of(args_view(items@)) == Some(ints_view(v@)),
            None => ints_of(args_view(items@)) is None,
        },
{
    let mut out: Vec<i64> = Vec::new();
    let mut i: usize = 0;
    while i < items.len()
        invariant
            i <= items.len(),
            out@.len() == i,
            forall|k: int| 0 <= k < i ==> #[trigger] args_view(items@)[k] is Int,
            forall|k: int| 0 <= k < i ==> out@[k] == args_view(items@)[k]->Int_0,
        decreases items.len() - i,
    {
        match &items[i] {
            Arg::Int(n) => {
                assert(args_view(items@)[i as int] == ArgV::Int(*n as int));
                out.push(*n);
            },
            _ => {
                assert(!(args_view(items@)[i as int] is Int));
                return None;
            },
        }
        i += 1;
    }
    proof {
        assert(ints_of(args_view(items@)).unwrap() =~= ints_view(out@));
    }
    Some(out)
}

/// The value under `key` in the first entry of `items` that carries it.
pub fn find<'a>(items: &'a Vec<(String, Arg)>, key: &str) -> (r: Option<&'a Arg>)
    ensures
        match r {
            Some(a) => lookup(entries_view(items@), key@) == Some(a@),
            None => lookup(entries_view(items@), key@) is None,
        },
{
    let wanted = key.to_owned();
    let mut i: usize = 0;
    let ghost all = entries_view(items@);
    proof {
        assert(all.subrange(0, all.len() as int) =~= all);
    }
    while i < items.len()
        invariant
            i <= items.len(),
            wanted@ == key@,
            all == entries_view(items@),
            lookup(all, key@) == lookup(all.subrange(i as int, all.len() as int), key@),
        decreases items.len() - i,
    {
        let ghost rest = all.subrange(i as int, all.len() as int);
        assert(rest[0] == all[i as int]);
        if items[i].0 == wanted {
            return Some(&items[i].1);
        }
        proof {
            assert(rest.subrange(1, rest.len() as int) =~= all.subrange(i + 1, all.len() as int));
        }
        i += 1;
    }
    None
}

/// Whether every key of `items` is one of `allowed`.
pub fn all_within(items: &Vec<(String, Arg)>, allowed: &[&str]) -> (r: bool)
    ensures
        r == keys_within(entries_view(items@), texts(allowed@)),
{
    let mut i: usize = 0;
    while i < items.len()
        invariant
            i <= items.len(),
            forall|k: int|
                0 <= k < i ==> texts(allowed@).contains(#[trigger] entries_view(items@)[k].0),
        decreases items.len() - i,
    {
        if !one_of(&items[i].0, allowed) {
            assert(!texts(allowed@).contains(entries_view(items@)[i as int].0));
            return false;
        }
        assert(entries_view(items@)[i as int].0 == items@[i as int].0@);
        i += 1;
    }
    true
}

/// Whether `name` occurs in `names`.
pub fn one_of(name: &String, names: &[&str]) -> (r: bool)
    ensures
        r == texts(names@).contains(name@),
{
    let mut i: usize = 0;
    while i < names.len()
        invariant
            i <= names.len(),
            forall|k: int| 0 <= k < i ==> texts(names@)[k] != name@,
        decreases names.len() - i,
    {
        let candidate = names[i].to_owned();
        if candidate == *name {
            assert(texts(names@)[i as int] == name@);
            return true;
        }
        i += 1;
    }
    false
}

} // verus!
