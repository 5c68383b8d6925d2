//! An intermediate-representation tree: operations hold regions, regions hold
//! blocks, blocks hold operations. Every node is named by a handle and carries
//! an ownership flag that flips exactly once, when the node is attached to a
//! container.

pub mod context;
pub mod error;
pub mod ir;
pub mod laws;
pub mod text;

pub use context::Context;
pub use error::Error;
