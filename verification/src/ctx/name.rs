//! Labels: how a repeated name is made unique by a decimal suffix.

use vstd::prelude::*;

verus! {

/// The character of the decimal digit `d`.
pub open spec fn digit(d: nat) -> char {
    if d == 0 {
        '0'
    } else if d == 1 {
        '1'
    } else if d == 2 {
        '2'
    } else if d == 3 {
        '3'
    } else if d == 4 {
        '4'
    } else if d == 5 {
        '5'
    } else if d == 6 {
        '6'
    } else if d == 7 {
        '7'
    } else if d == 8 {
        '8'
    } else {
        '9'
    }
}

/// Whether `c` is a decimal digit.
pub open spec fn is_digit(c: char) -> bool {
    c == '0' || c == '1' || c == '2' || c == '3' || c == '4' || c == '5' || c == '6' || c == '7'
        || c == '8' || c == '9'
}

/// Decimal notation of `n`, without leading zeros.
pub open spec fn decimal(n: nat) -> Seq<char>
    decreases n,
{
    if n < 10 {
        seq![digit(n)]
    } else {
        decimal(n / 10).push(digit(n % 10))
    }
}

/// The label of the occurrence number `n` of `base`, counted from zero: the
/// first keeps the base, the others get `-n` appended.
pub open spec fn label(base: Seq<char>, n: nat) -> Seq<char> {
    if n == 0 {
        base
    } else {
        base + seq!['-'] + decimal(n)
    }
}

/// The text of one decimal digit.
pub fn digit_text(d: usize) -> (r: &'static str)
    requires
        d < 10,
    ensures
        r@ == seq![digit(d as nat)],
{
    proof {
        reveal_strlit("0");
        reveal_strlit("1");
        reveal_strlit("2");
        reveal_strlit("3");
        reveal_strlit("4");
        reveal_strlit("5");
        reveal_strlit("6");
        reveal_strlit("7");
        reveal_strlit("8");
        reveal_strlit("9");
    }
    let r = if d == 0 {
        "0"
    } else if d == 1 {
        "1"
    } else if d == 2 {
        "2"
    } else if d == 3 {
        "3"
    } else if d == 4 {
        "4"
    } else if d == 5 {
        "5"
    } else if d == 6 {
        "6"
    } else if d == 7 {
        "7"
    } else if d == 8 {
        "8"
    } else {
        "9"
    };
    assert(r@ =~= seq![digit(d as nat)]);
    r
}

/// Decimal notation of `n`.
pub fn decimal_text(n: usize) -> (r: String)
    ensures
        r@ == decimal(n as nat),
    decreases n,
{
    if n < 10 {
        digit_text(n).to_owned()
    } else {
        let mut s = decimal_text(n / 10);
        s.append(digit_text(n % 10));
        proof {
            assert(s@ =~= decimal((n / 10) as nat).push(digit((n % 10) as nat)));
        }
        s
    }
}

/// The label of occurrence `n` of `base`.
pub fn label_text(base: &str, n: usize) -> (r: String)
    ensures
        r@ == label(base@, n as nat),
{
    let mut s = base.to_owned();
    if n != 0 {
        proof {
            reveal_strlit("-");
        }
        s.append("-");
        let digits = decimal_text(n);
        s.append(digits.as_str());
        proof {
            assert("-"@ =~= seq!['-']);
            assert(s@ =~= base@ + seq!['-'] + decimal(n as nat));
        }
    }
    s
}

/// `a`, then `sep`, then `b`.
pub fn join(a: &str, sep: &str, b: &str) -> (r: String)
    ensures
        r@ == a@ + sep@ + b@,
{
    let mut s = a.to_owned();
    s.append(sep);
    s.append(b);
    s
}

/// Whether `c` separates the parts of a fully qualified name.
pub open spec fn is_separator(c: char) -> bool {
    c == '.' || c == ':'
}

/// No character of `s` is a separator.
pub open spec fn separator_free(s: Seq<char>) -> bool {
    forall|i: int| 0 <= i < s.len() ==> !is_separator(#[trigger] s[i])
}

/// `s` ends in a dash followed by digits only, and by one at least: it
/// looks like the label of a repeated name.
pub open spec fn numbered(s: Seq<char>) -> bool {
    exists|i: int| #[trigger] dash_then_digits(s, i)
}

/// At `i` there is a dash that is followed by digits only, and by one at
/// least.
pub open spec fn dash_then_digits(s: Seq<char>, i: int) -> bool {
    &&& 0 <= i < s.len() - 1
    &&& s[i] == '-'
    &&& forall|j: int| i < j < s.len() ==> is_digit(#[trigger] s[j])
}

/// A name that cannot be mistaken for part of a path or for a label: it
/// holds no separator and does not look like the label of a repeated name.
pub open spec fn plain(s: Seq<char>) -> bool {
    separator_free(s) && !numbered(s)
}

/// `p` is how `s` begins.
pub open spec fn has_prefix(s: Seq<char>, p: Seq<char>) -> bool {
    p.len() <= s.len() && forall|i: int| 0 <= i < p.len() ==> s[i] == p[i]
}

/// `name` is the name of something within the scope at `path`: a call of
/// that scope, or anything of one of its sub-scopes.
pub open spec fn under(name: Seq<char>, path: Seq<char>) -> bool {
    has_prefix(name, path + seq![':']) || has_prefix(name, path + seq!['.'])
}

/// The number that the decimal notation `s` stands for.
pub open spec fn value(s: Seq<char>) -> nat
    decreases s.len(),
{
    if s.len() == 0 {
        0
    } else {
        value(s.drop_last()) * 10 + digit_value(s.last())
    }
}

/// The number that the digit `c` stands for.
pub open spec fn digit_value(c: char) -> nat {
    if c == '1' {
        1
    } else if c == '2' {
        2
    } else if c == '3' {
        3
    } else if c == '4' {
        4
    } else if c == '5' {
        5
    } else if c == '6' {
        6
    } else if c == '7' {
        7
    } else if c == '8' {
        8
    } else if c == '9' {
        9
    } else {
        0
    }
}

/// Decimal notation is made of digits, of one at least, and stands for the
/// number it was made from.
pub proof fn lemma_decimal(n: nat)
    ensures
        decimal(n).len() >= 1,
        forall|i: int| 0 <= i < decimal(n).len() ==> is_digit(#[trigger] decimal(n)[i]),
        value(decimal(n)) == n,
    decreases n,
{
    if n < 10 {
        assert(decimal(n).drop_last() =~= Seq::<char>::empty());
        assert(value(decimal(n).drop_last()) == 0);
    } else {
        lemma_decimal(n / 10);
        assert(decimal(n).drop_last() =~= decimal(n / 10));
    }
}

/// Two numbers with the same decimal notation are the same.
pub proof fn lemma_decimal_injective(a: nat, b: nat)
    requires
        decimal(a) == decimal(b),
    ensures
        a == b,
{
    lemma_decimal(a);
    lemma_decimal(b);
}

/// The label of a repeated name looks like one, and a label holds no
/// separator if the name holds none.
pub proof fn lemma_label_shape(base: Seq<char>, n: nat)
    ensures
        n >= 1 ==> numbered(label(base, n)),
        separator_free(base) ==> separator_free(label(base, n)),
{
    lemma_decimal(n);
    if n >= 1 {
        let l = label(base, n);
        assert forall|j: int| base.len() < j < l.len() implies is_digit(#[trigger] l[j]) by {
            assert(l[j] == decimal(n)[j - base.len() - 1]);
        }
        assert(dash_then_digits(l, base.len() as int));
        if separator_free(base) {
            assert forall|i: int| 0 <= i < l.len() implies !is_separator(#[trigger] l[i]) by {
                if i < base.len() {
                    assert(l[i] == base[i]);
                } else if i > base.len() {
                    assert(l[i] == decimal(n)[i - base.len() - 1]);
                    assert(is_digit(l[i]));
                }
            }
        }
    }
}

/// Labels of plain names tell name and number: two of them are the same
/// only for the same occurrence of the same name.
pub proof fn lemma_label_injective(b1: Seq<char>, k1: nat, b2: Seq<char>, k2: nat)
    requires
        plain(b1),
        plain(b2),
        label(b1, k1) == label(b2, k2),
    ensures
        b1 == b2,
        k1 == k2,
{
    lemma_label_shape(b1, k1);
    lemma_label_shape(b2, k2);
    lemma_decimal(k1);
    lemma_decimal(k2);
    if k1 >= 1 && k2 >= 1 {
        let l = label(b1, k1);
        let d1 = decimal(k1);
        let d2 = decimal(k2);
        if b1.len() < b2.len() {
            // the dash that ends `b2` would lie among the digits of `k1`
            assert(l[b2.len() as int] == '-');
            assert(l[b2.len() as int] == d1[b2.len() - b1.len() - 1]);
            assert(is_digit(d1[b2.len() - b1.len() - 1]));
        } else if b2.len() < b1.len() {
            assert(l[b1.len() as int] == '-');
            assert(l[b1.len() as int] == d2[b1.len() - b2.len() - 1]);
            assert(is_digit(d2[b1.len() - b2.len() - 1]));
        } else {
            assert forall|i: int| 0 <= i < b1.len() implies b1[i] == b2[i] by {
                assert(l[i] == b1[i]);
                assert(l[i] == b2[i]);
            }
            assert(b1 =~= b2);
            assert forall|i: int| 0 <= i < d1.len() implies d1[i] == d2[i] by {
                assert(l[b1.len() + 1 + i] == d1[i]);
                assert(l[b2.len() + 1 + i] == d2[i]);
            }
            assert(d1 =~= d2);
            lemma_decimal_injective(k1, k2);
        }
    }
}

/// Two scopes of one parent that hold the same name are the same scope:
/// their labels hold no separator, so the name tells where the label ends.
pub proof fn lemma_sub_scopes_differ(name: Seq<char>, path: Seq<char>, l1: Seq<char>, l2: Seq<char>)
    requires
        separator_free(l1),
        separator_free(l2),
        under(name, path + seq!['.'] + l1),
        under(name, path + seq!['.'] + l2),
    ensures
        l1 == l2,
{
    let left = path + seq!['.'] + l1;
    let right = path + seq!['.'] + l2;
    let at = path.len() as int + 1;
    // the character that follows each label in `name` is a separator
    assert(is_separator(name[left.len() as int])) by {
        assert((left + seq![':'])[left.len() as int] == ':');
        assert((left + seq!['.'])[left.len() as int] == '.');
    }
    assert(is_separator(name[right.len() as int])) by {
        assert((right + seq![':'])[right.len() as int] == ':');
        assert((right + seq!['.'])[right.len() as int] == '.');
    }
    assert forall|i: int| 0 <= i < l1.len() implies name[at + i] == l1[i] by {
        assert((left + seq![':'])[at + i] == l1[i]);
        assert((left + seq!['.'])[at + i] == l1[i]);
    }
    assert forall|i: int| 0 <= i < l2.len() implies name[at + i] == l2[i] by {
        assert((right + seq![':'])[at + i] == l2[i]);
        assert((right + seq!['.'])[at + i] == l2[i]);
    }
    if l1.len() < l2.len() {
        assert(name[at + l1.len() as int] == l2[l1.len() as int]);
        assert(!is_separator(l2[l1.len() as int]));
    } else if l2.len() < l1.len() {
        assert(name[at + l2.len() as int] == l1[l2.len() as int]);
        assert(!is_separator(l1[l2.len() as int]));
    } else {
        assert(l1 =~= l2);
    }
}

/// What lies within a sub-scope lies within its parent, and is not one of
/// the parent's own calls.
pub proof fn lemma_under_sub_scope(name: Seq<char>, path: Seq<char>, l: Seq<char>)
    requires
        under(name, path + seq!['.'] + l),
    ensures
        has_prefix(name, path + seq!['.']),
        !has_prefix(name, path + seq![':']),
        under(name, path),
{
    let sub = path + seq!['.'] + l;
    let dot = path + seq!['.'];
    assert forall|i: int| 0 <= i < dot.len() implies name[i] == dot[i] by {
        assert((sub + seq![':'])[i] == dot[i]);
        assert((sub + seq!['.'])[i] == dot[i]);
    }
    assert(name[path.len() as int] == '.');
    assert((path + seq![':'])[path.len() as int] == ':');
}

/// The name of a call lies within its scope, and not within a sub-scope.
pub proof fn lemma_call_under(path: Seq<char>, l: Seq<char>)
    ensures
        has_prefix(path + seq![':'] + l, path + seq![':']),
        !has_prefix(path + seq![':'] + l, path + seq!['.']),
        under(path + seq![':'] + l, path),
{
    let name = path + seq![':'] + l;
    assert(name[path.len() as int] == ':');
    assert((path + seq!['.'])[path.len() as int] == '.');
}

/// A name without separators that does not end in a digit is plain.
pub proof fn lemma_plain_ending(s: Seq<char>)
    requires
        separator_free(s),
        s.len() >= 1,
        !is_digit(s.last()),
    ensures
        plain(s),
{
    assert forall|i: int| !#[trigger] dash_then_digits(s, i) by {
        if 0 <= i < s.len() - 1 && s[i] == '-' {
            assert(!is_digit(s[s.len() - 1]));
        }
    }
}

/// A name without separators and without a dash is plain.
pub proof fn lemma_plain_dashless(s: Seq<char>)
    requires
        separator_free(s),
        forall|i: int| 0 <= i < s.len() ==> s[i] != '-',
    ensures
        plain(s),
{
    assert forall|i: int| !#[trigger] dash_then_digits(s, i) by {}
}

/// The names that the networks of this library give to their calls and to
/// their sub-scopes are plain.
pub proof fn lemma_names_plain()
    ensures
        plain("embedding"@),
        plain("conv"@),
        plain("add"@),
        plain("transpose"@),
        plain("rearrange"@),
        plain("tile"@),
        plain("merge"@),
        plain("linear"@),
        plain("rmsnorm"@),
        plain("layernorm"@),
        plain("split"@),
        plain("swiglu"@),
        plain("gelu"@),
        plain("rope"@),
        plain("attention"@),
        plain("up"@),
        plain("down"@),
        plain("qkv"@),
        plain("output"@),
        plain("pre-norm"@),
        plain("self-attn"@),
        plain("post-norm"@),
        plain("mlp"@),
        plain("conv1"@),
{
    reveal_strlit("embedding");
    assert(separator_free("embedding"@));
    lemma_plain_ending("embedding"@);
    reveal_strlit("conv");
    assert(separator_free("conv"@));
    lemma_plain_ending("conv"@);
    reveal_strlit("add");
    assert(separator_free("add"@));
    lemma_plain_ending("add"@);
    reveal_strlit("transpose");
    assert(separator_free("transpose"@));
    lemma_plain_ending("transpose"@);
    reveal_strlit("rearrange");
    assert(separator_free("rearrange"@));
    lemma_plain_ending("rearrange"@);
    reveal_strlit("tile");
    assert(separator_free("tile"@));
    lemma_plain_ending("tile"@);
    reveal_strlit("merge");
    assert(separator_free("merge"@));
    lemma_plain_ending("merge"@);
    reveal_strlit("linear");
    assert(separator_free("linear"@));
    lemma_plain_ending("linear"@);
    reveal_strlit("rmsnorm");
    assert(separator_free("rmsnorm"@));
    lemma_plain_ending("rmsnorm"@);
    reveal_strlit("layernorm");
    assert(separator_free("layernorm"@));
    lemma_plain_ending("layernorm"@);
    reveal_strlit("split");
    assert(separator_free("split"@));
    lemma_plain_ending("split"@);
    reveal_strlit("swiglu");
    assert(separator_free("swiglu"@));
    lemma_plain_ending("swiglu"@);
    reveal_strlit("gelu");
    assert(separator_free("gelu"@));
    lemma_plain_ending("gelu"@);
    reveal_strlit("rope");
    assert(separator_free("rope"@));
    lemma_plain_ending("rope"@);
    reveal_strlit("attention");
    assert(separator_free("attention"@));
    lemma_plain_ending("attention"@);
    reveal_strlit("up");
    assert(separator_free("up"@));
    lemma_plain_ending("up"@);
    reveal_strlit("down");
    assert(separator_free("down"@));
    lemma_plain_ending("down"@);
    reveal_strlit("qkv");
    assert(separator_free("qkv"@));
    lemma_plain_ending("qkv"@);
    reveal_strlit("output");
    assert(separator_free("output"@));
    lemma_plain_ending("output"@);
    reveal_strlit("pre-norm");
    assert(separator_free("pre-norm"@));
    lemma_plain_ending("pre-norm"@);
    reveal_strlit("self-attn");
    assert(separator_free("self-attn"@));
    lemma_plain_ending("self-attn"@);
    reveal_strlit("post-norm");
    assert(separator_free("post-norm"@));
    lemma_plain_ending("post-norm"@);
    reveal_strlit("mlp");
    assert(separator_free("mlp"@));
    lemma_plain_ending("mlp"@);
    reveal_strlit("conv1");
    assert(separator_free("conv1"@));
    lemma_plain_dashless("conv1"@);
}

} // verus!
