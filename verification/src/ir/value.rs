//! Values: what operations consume and produce.

use super::handle::{BlockHandle, OperationHandle};
use super::types::Type;
use vstd::prelude::*;

verus! {

/// Where a value comes from.
#[derive(Clone, Copy, Debug, PartialEq, Eq, Structural)]
pub enum ValueSource {
    /// The argument of a block at a position.
    Argument(BlockHandle, usize),
    /// The result of an operation at a position.
    Result(OperationHandle, usize),
}

/// A typed value. It refers to the node that defines it and owns nothing.
#[derive(Clone, Copy, Debug, PartialEq, Eq, Structural)]
pub struct Value {
    pub source: ValueSource,
    pub ty: Type,
}

/// An argument of a block.
#[derive(Clone, Copy, Debug, PartialEq, Eq, Structural)]
pub struct Argument {
    pub block: BlockHandle,
    pub position: usize,
    pub ty: Type,
}

/// A result of an operation.
#[derive(Clone, Copy, Debug, PartialEq, Eq, Structural)]
pub struct ResultValue {
    pub operation: OperationHandle,
    pub position: usize,
    pub ty: Type,
}

impl Argument {
    /// The argument's type.
    pub fn ty(&self) -> (ty: Type)
        ensures
            ty == self.ty,
    {
        self.ty
    }

    /// The argument as a value.
    pub open spec fn value(self) -> Value {
        Value { source: ValueSource::Argument(self.block, self.position), ty: self.ty }
    }
}

impl ResultValue {
    /// The result's type.
    pub fn ty(&self) -> (ty: Type)
        ensures
            ty == self.ty,
    {
        self.ty
    }

    /// The result as a value.
    pub open spec fn value(self) -> Value {
        Value { source: ValueSource::Result(self.operation, self.position), ty: self.ty }
    }
}

impl From<Argument> for Value {
    fn from(argument: Argument) -> (value: Value) {
        Value { source: ValueSource::Argument(argument.block, argument.position), ty: argument.ty }
    }
}

impl vstd::std_specs::convert::FromSpecImpl<Argument> for Value {
    open spec fn obeys_from_spec() -> bool {
        true
    }

    open spec fn from_spec(argument: Argument) -> Value {
        argument.value()
    }
}

impl From<ResultValue> for Value {
    fn from(result: ResultValue) -> (value: Value) {
        Value { source: ValueSource::Result(result.operation, result.position), ty: result.ty }
    }
}

impl vstd::std_specs::convert::FromSpecImpl<ResultValue> for Value {
    open spec fn obeys_from_spec() -> bool {
        true
    }

    open spec fn from_spec(result: ResultValue) -> Value {
        result.value()
    }
}

} // verus!
