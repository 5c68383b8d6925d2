//! IR objects and builders.

pub mod attribute;
pub mod block;
pub mod builder;
pub mod handle;
pub mod identifier;
pub mod literal;
pub mod location;
pub mod module;
pub mod named_attribute;
pub mod operation;
pub mod printer;
pub mod region;
pub mod syntax;
pub mod types;
pub mod value;

pub use self::attribute::Attribute;
pub use self::block::Block;
pub use self::builder::Builder;
pub use self::handle::{BlockHandle, ModuleHandle, OperationHandle, RegionHandle};
pub use self::identifier::Identifier;
pub use self::location::Location;
pub use self::module::Module;
pub use self::named_attribute::NamedAttribute;
pub use self::operation::Operation;
pub use self::region::Region;
pub use self::types::Type;
pub use self::value::{Argument, ResultValue, Value, ValueSource};
