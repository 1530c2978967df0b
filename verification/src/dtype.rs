//! Element types of tensors and their canonical byte widths.

use vstd::prelude::*;

verus! {

/// Bit layout of one tensor element.
#[derive(Clone, Copy, Debug, PartialEq, Eq, Hash, Structural)]
pub enum Dtype {
    F16,
    BF16,
    F32,
    F64,
    I8,
    I16,
    I32,
    I64,
    U8,
    U16,
    U32,
    U64,
    Bool,
}

impl Dtype {
    /// Canonical width of one element in bytes.
    pub open spec fn spec_nbytes(self) -> nat {
        match self {
            Dtype::I8 | Dtype::U8 | Dtype::Bool => 1,
            Dtype::F16 | Dtype::BF16 | Dtype::I16 | Dtype::U16 => 2,
            Dtype::F32 | Dtype::I32 | Dtype::U32 => 4,
            Dtype::F64 | Dtype::I64 | Dtype::U64 => 8,
        }
    }

    /// Width of one element in bytes.
    #[verifier::when_used_as_spec(spec_nbytes_usize)]
    pub fn nbytes(self) -> (n: usize)
        ensures
            n == self.spec_nbytes(),
            1 <= n <= 8,
    {
        layout_nbytes(self)
    }

    pub open spec fn spec_nbytes_usize(self) -> usize {
        self.spec_nbytes() as usize
    }
}

/// Byte width that `digit_layout` gives to the predefined layout of the same
/// name: calls `DigitLayout::nbytes` on the constant of `digit_layout::types`.
/// The contract restates the table of `digit_layout::types`: an unsigned or
/// real layout of `w` bits in groups of one occupies `w / 8` bytes, `Bool`
/// occupies one.
#[verifier::external_body]
fn layout_nbytes(dt: Dtype) -> (n: usize)
    ensures
        n == dt.spec_nbytes(),
{
    match dt {
        Dtype::F16 => digit_layout::types::F16,
        Dtype::BF16 => digit_layout::types::BF16,
        Dtype::F32 => digit_layout::types::F32,
        Dtype::F64 => digit_layout::types::F64,
        Dtype::I8 => digit_layout::types::I8,
        Dtype::I16 => digit_layout::types::I16,
        Dtype::I32 => digit_layout::types::I32,
        Dtype::I64 => digit_layout::types::I64,
        Dtype::U8 => digit_layout::types::U8,
        Dtype::U16 => digit_layout::types::U16,
        Dtype::U32 => digit_layout::types::U32,
        Dtype::U64 => digit_layout::types::U64,
        Dtype::Bool => digit_layout::types::Bool,
    }.nbytes()
}

} // verus!
