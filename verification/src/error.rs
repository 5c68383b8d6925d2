//! Recoverable failures.

use vstd::prelude::*;

verus! {

/// What a call can report to its direct caller. Nothing is retried and
/// nothing is logged.
#[derive(Debug, PartialEq, Eq)]
pub enum Error {
    /// An argument position at or past the block's argument count, with the
    /// block's rendering.
    BlockArgumentPosition(String, usize),
    /// A result position at or past the operation's result count, with the
    /// operation's rendering.
    OperationResultPosition(String, usize),
    /// The reference operation is not a member of the searched block.
    OperationNotFound,
    /// The reference block is not a member of the searched region.
    BlockNotFound,
    /// The text is no attribute literal; carries the offending text.
    NamedAttributeParse(String),
}

} // verus!
