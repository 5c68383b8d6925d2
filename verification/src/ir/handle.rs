//! Handles: the names by which nodes of the tree are told apart.

use vstd::prelude::*;

verus! {

/// A non-owning name of an operation. Two operations are the same node
/// exactly when their handles are equal.
#[derive(Clone, Copy, Debug, PartialEq, Eq, Structural)]
pub struct OperationHandle(pub u64);

/// A non-owning name of a block.
#[derive(Clone, Copy, Debug, PartialEq, Eq, Structural)]
pub struct BlockHandle(pub u64);

/// A non-owning name of a region.
#[derive(Clone, Copy, Debug, PartialEq, Eq, Structural)]
pub struct RegionHandle(pub u64);

/// A non-owning name of a module.
#[derive(Clone, Copy, Debug, PartialEq, Eq, Structural)]
pub struct ModuleHandle(pub u64);

} // verus!
