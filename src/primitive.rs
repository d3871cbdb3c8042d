use vstd::prelude::*;

verus! {

/// The fixed-width leaf shapes, each charged its in-memory width.
#[derive(Clone, Copy, Debug, PartialEq, Eq, Structural)]
pub enum Primitive {
    Bool,
    I8,
    I16,
    I32,
    I64,
    I128,
    U8,
    U16,
    U32,
    U64,
    U128,
    F32,
    F64,
    Char,
}

/// Width in bytes of each fixed-width leaf.
pub open spec fn width_of(p: Primitive) -> nat {
    match p {
        Primitive::Bool => 1,
        Primitive::I8 | Primitive::U8 => 1,
        Primitive::I16 | Primitive::U16 => 2,
        Primitive::I32 | Primitive::U32 | Primitive::F32 | Primitive::Char => 4,
        Primitive::I64 | Primitive::U64 | Primitive::F64 => 8,
        Primitive::I128 | Primitive::U128 => 16,
    }
}

impl Primitive {
    /// The number of bytes this leaf contributes, whatever its value.
    pub fn width(self) -> (r: usize)
        ensures
            r as nat == width_of(self),
    {
        match self {
            Primitive::Bool => 1,
            Primitive::I8 | Primitive::U8 => 1,
            Primitive::I16 | Primitive::U16 => 2,
            Primitive::I32 | Primitive::U32 | Primitive::F32 | Primitive::Char => 4,
            Primitive::I64 | Primitive::U64 | Primitive::F64 => 8,
            Primitive::I128 | Primitive::U128 => 16,
        }
    }
}

} // verus!
