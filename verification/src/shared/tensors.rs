use vstd::prelude::*;

verus! {

/// The element type of a tensor exchanged with the runtime.
#[derive(Debug, Copy, Clone, PartialEq, Eq, Hash, Structural)]
pub enum ElementType {
    U8,
    I8,
    U16,
    I16,
    U32,
    I32,
    F32,
    U64,
    I64,
    F64,
    /// A string as UTF-8 encoded bytes.
    Utf8,
}

/// The shape of a tensor: either left open or fixed per dimension.
#[derive(Debug, Clone)]
pub enum Dimensions {
    Dynamic,
    Fixed(Vec<usize>),
}

} // verus!
