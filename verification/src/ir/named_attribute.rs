//! Named attributes.

use super::attribute::{Attribute, AttributeView};
use super::identifier::Identifier;
use super::literal::parse_attribute;
use crate::error::Error;
use vstd::prelude::*;
use vstd::string::StringExecFns;

verus! {

/// What a named attribute is, for contracts.
pub struct NamedAttributeView {
    pub identifier: Seq<char>,
    pub attribute: AttributeView,
}

/// A name with an attribute, as operations carry them.
#[derive(Debug)]
pub struct NamedAttribute {
    pub identifier: Identifier,
    pub attribute: Attribute,
}

impl View for NamedAttribute {
    type V = NamedAttributeView;

    open spec fn view(&self) -> NamedAttributeView {
        NamedAttributeView { identifier: self.identifier@, attribute: self.attribute@ }
    }
}

impl NamedAttribute {
    /// Names the attribute that the text stands for. A text that is no
    /// attribute is handed back in the error.
    pub fn new_parsed(name: &str, attribute: &str) -> (result: Result<NamedAttribute, Error>)
        ensures
            match parse_attribute(attribute@) {
                Some(value) => result matches Ok(named) && named@ == (NamedAttributeView {
                    identifier: name@,
                    attribute: value,
                }),
                None => result matches Err(Error::NamedAttributeParse(text)) && text@
                    == attribute@,
            },
    {
        match Attribute::parse(attribute) {
            Some(value) => Ok(NamedAttribute { identifier: Identifier::new(name), attribute: value }),
            None => Err(Error::NamedAttributeParse(String::from_str(attribute))),
        }
    }

    /// Names an attribute. This always succeeds.
    pub fn new(identifier: Identifier, attribute: Attribute) -> (result: Result<
        NamedAttribute,
        Error,
    >)
        ensures
            result matches Ok(named) && named@ == (NamedAttributeView {
                identifier: identifier@,
                attribute: attribute@,
            }),
    {
        Ok(NamedAttribute { identifier, attribute })
    }
}

/// The attributes of a sequence, each as contracts see it.
pub open spec fn attribute_views(attributes: Seq<NamedAttribute>) -> Seq<NamedAttributeView> {
    Seq::new(attributes.len(), |i: int| attributes[i]@)
}

impl Clone for NamedAttribute {
    fn clone(&self) -> (copy: NamedAttribute)
        ensures
            copy@ == self@,
    {
        NamedAttribute { identifier: self.identifier.clone(), attribute: self.attribute.clone() }
    }
}

} // verus!
