//! Types of values.

use super::literal::{parse_type, read_type_literal};
use vstd::prelude::*;

verus! {

/// The type of a value.
#[derive(Clone, Copy, Debug, PartialEq, Eq, Structural)]
pub enum Type {
    /// A signless integer of the given width in bits.
    Integer(u32),
    /// The platform's index type.
    Index,
}

impl Type {
    /// The integer type of the given width.
    pub fn integer(bits: u32) -> (ty: Type)
        ensures
            ty == Type::Integer(bits),
    {
        Type::Integer(bits)
    }

    /// Reads a type from its text. A text that is no type yields no value.
    pub fn parse(text: &str) -> (ty: Option<Type>)
        ensures
            ty == parse_type(text@),
    {
        read_type_literal(text)
    }

    /// The index type.
    pub fn index() -> (ty: Type)
        ensures
            ty == Type::Index,
    {
        Type::Index
    }
}

} // verus!
