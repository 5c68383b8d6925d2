//! Attributes: constant data attached to operations.

use super::literal::{parse_attribute, read_attribute_literal};
use super::types::Type;
use vstd::prelude::*;

verus! {

/// What an attribute is, for contracts.
pub enum AttributeView {
    /// The unit attribute.
    Unit,
    /// An integer of a type.
    Integer(int, Type),
    /// A string.
    String(Seq<char>),
    /// A type.
    Type(Type),
}

/// A constant datum.
#[derive(Debug)]
pub enum Attribute {
    /// The unit attribute.
    Unit,
    /// An integer of a type.
    Integer(i64, Type),
    /// A string.
    String(String),
    /// A type.
    Type(Type),
}

impl View for Attribute {
    type V = AttributeView;

    open spec fn view(&self) -> AttributeView {
        match self {
            Attribute::Unit => AttributeView::Unit,
            Attribute::Integer(value, ty) => AttributeView::Integer(*value as int, *ty),
            Attribute::String(text) => AttributeView::String(text@),
            Attribute::Type(ty) => AttributeView::Type(*ty),
        }
    }
}

impl Attribute {
    /// Reads an attribute from its text. A text that is no attribute yields
    /// no value.
    pub fn parse(text: &str) -> (attribute: Option<Attribute>)
        ensures
            match attribute {
                Some(a) => parse_attribute(text@) == Some(a@),
                None => parse_attribute(text@).is_none(),
            },
    {
        read_attribute_literal(text)
    }
}

impl Clone for Attribute {
    fn clone(&self) -> (copy: Attribute)
        ensures
            copy@ == self@,
    {
        match self {
            Attribute::Unit => Attribute::Unit,
            Attribute::Integer(value, ty) => Attribute::Integer(*value, *ty),
            Attribute::String(text) => Attribute::String(text.clone()),
            Attribute::Type(ty) => Attribute::Type(*ty),
        }
    }
}

} // verus!
