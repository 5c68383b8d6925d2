//! The textual form of the tree: what rendering a node yields.

use super::attribute::AttributeView;
use super::block::BlockView;
use super::handle::BlockHandle;
use super::location::LocationView;
use super::module::is_module_shaped;
use super::named_attribute::NamedAttributeView;
use super::operation::OperationView;
use super::region::RegionView;
use super::types::Type;
use super::value::{Value, ValueSource};
use crate::text::{decimal, signed_decimal};
use vstd::prelude::*;

verus! {

/// The parts, with a comma and a space between neighbours.
pub open spec fn joined(parts: Seq<Seq<char>>) -> Seq<char>
    decreases parts.len(),
{
    if parts.len() == 0 {
        Seq::empty()
    } else if parts.len() == 1 {
        parts[0]
    } else {
        joined(parts.drop_last()) + ", "@ + parts.last()
    }
}

/// A type: `i` and the width, or `index`.
pub open spec fn type_text(ty: Type) -> Seq<char> {
    match ty {
        Type::Integer(bits) => "i"@ + decimal(bits as nat),
        Type::Index => "index"@,
    }
}

/// An attribute: `unit`, an integer with its type, a quoted string, or a
/// type.
pub open spec fn attribute_text(attribute: AttributeView) -> Seq<char> {
    match attribute {
        AttributeView::Unit => "unit"@,
        AttributeView::Integer(value, ty) => signed_decimal(value) + " : "@ + type_text(ty),
        AttributeView::String(text) => "\""@ + text + "\""@,
        AttributeView::Type(ty) => type_text(ty),
    }
}

/// A named attribute: the name, an equals sign, the attribute.
pub open spec fn named_attribute_text(named: NamedAttributeView) -> Seq<char> {
    named.identifier + " = "@ + attribute_text(named.attribute)
}

/// A location: a file with line and column, or `unknown`.
pub open spec fn location_text(location: LocationView) -> Seq<char> {
    match location {
        LocationView::Unknown => "loc(unknown)"@,
        LocationView::File { file, line, column } => "loc(\""@ + file + "\":"@ + decimal(
            line as nat,
        ) + ":"@ + decimal(column as nat) + ")"@,
    }
}

/// The name under which a value is printed: `%arg` and the position for a
/// block argument; `%` and the operation's handle for a result, followed by
/// `#` and the position for every result but the first.
pub open spec fn value_text(value: Value) -> Seq<char> {
    match value.source {
        ValueSource::Argument(_, position) => "%arg"@ + decimal(position as nat),
        ValueSource::Result(operation, position) => if position == 0 {
            "%"@ + decimal(operation.0 as nat)
        } else {
            "%"@ + decimal(operation.0 as nat) + "#"@ + decimal(position as nat)
        },
    }
}

/// The name under which a block is printed.
pub open spec fn block_name(handle: BlockHandle) -> Seq<char> {
    "^bb"@ + decimal(handle.0 as nat)
}

/// The names of the first `count` values.
pub open spec fn value_texts(values: Seq<Value>, count: int) -> Seq<Seq<char>> {
    Seq::new(count as nat, |i: int| value_text(values[i]))
}

/// The types of the first `count` values.
pub open spec fn value_type_texts(values: Seq<Value>, count: int) -> Seq<Seq<char>> {
    Seq::new(count as nat, |i: int| type_text(values[i].ty))
}

/// The first `count` types.
pub open spec fn type_texts(types: Seq<Type>, count: int) -> Seq<Seq<char>> {
    Seq::new(count as nat, |i: int| type_text(types[i]))
}

/// The names of the first `count` blocks.
pub open spec fn block_names(blocks: Seq<BlockHandle>, count: int) -> Seq<Seq<char>> {
    Seq::new(count as nat, |i: int| block_name(blocks[i]))
}

/// The first `count` named attributes.
pub open spec fn named_attribute_texts(attributes: Seq<NamedAttributeView>, count: int) -> Seq<
    Seq<char>,
> {
    Seq::new(count as nat, |i: int| named_attribute_text(attributes[i]))
}

/// The first `count` arguments of a block, each with its type.
pub open spec fn argument_texts(arguments: Seq<(Type, LocationView)>, count: int) -> Seq<
    Seq<char>,
> {
    Seq::new(count as nat, |i: int| "%arg"@ + decimal(i as nat) + ": "@ + type_text(arguments[i].0))
}

/// What stands before the name of an operation that has results: `%` and
/// the handle, the number of results where there are several, and an equals
/// sign.
pub open spec fn results_prefix(operation: OperationView) -> Seq<char> {
    if operation.results.len() == 0 {
        Seq::empty()
    } else if operation.results.len() == 1 {
        "%"@ + decimal(operation.handle.0 as nat) + " = "@
    } else {
        "%"@ + decimal(operation.handle.0 as nat) + ":"@ + decimal(operation.results.len())
            + " = "@
    }
}

/// The successors of an operation in square brackets, or nothing.
pub open spec fn successors_part(operation: OperationView) -> Seq<char> {
    if operation.successors.len() == 0 {
        Seq::empty()
    } else {
        "["@ + joined(block_names(operation.successors, operation.successors.len() as int)) + "]"@
    }
}

/// The attributes of an operation in braces, or nothing.
pub open spec fn attributes_part(operation: OperationView) -> Seq<char> {
    if operation.attributes.len() == 0 {
        Seq::empty()
    } else {
        " {"@ + joined(
            named_attribute_texts(operation.attributes, operation.attributes.len() as int),
        ) + "}"@
    }
}

/// The types of the results: the one type, or a list in parentheses.
pub open spec fn result_types_part(operation: OperationView) -> Seq<char> {
    if operation.results.len() == 1 {
        type_text(operation.results[0])
    } else {
        "("@ + joined(type_texts(operation.results, operation.results.len() as int)) + ")"@
    }
}

/// The signature of an operation: operand types, an arrow, result types.
pub open spec fn signature_part(operation: OperationView) -> Seq<char> {
    " : ("@ + joined(value_type_texts(operation.operands, operation.operands.len() as int))
        + ") -> "@ + result_types_part(operation)
}

/// What stands before the regions of an operation in its general form.
pub open spec fn operation_head(operation: OperationView) -> Seq<char> {
    results_prefix(operation) + "\""@ + operation.name + "\"("@ + joined(
        value_texts(operation.operands, operation.operands.len() as int),
    ) + ")"@ + successors_part(operation)
}

/// What stands behind the regions of an operation in its general form.
pub open spec fn operation_tail(operation: OperationView) -> Seq<char> {
    attributes_part(operation) + signature_part(operation)
}

/// The operation is printed in the short form of a module: it has the shape
/// of one and nothing but its body.
pub open spec fn prints_as_module(operation: OperationView) -> bool {
    &&& is_module_shaped(operation)
    &&& operation.operands.len() == 0
    &&& operation.results.len() == 0
    &&& operation.attributes.len() == 0
    &&& operation.successors.len() == 0
}

/// The label of a block: its name and, in parentheses, its arguments where
/// it has any.
pub open spec fn label_text(block: BlockView) -> Seq<char> {
    if block.arguments.len() == 0 {
        block_name(block.handle)
    } else {
        block_name(block.handle) + "("@ + joined(
            argument_texts(block.arguments, block.arguments.len() as int),
        ) + ")"@
    }
}

/// An operation without indentation and line end: the short form of a
/// module, or the general form with name, operands, successors, regions,
/// attributes and signature. Lines inside it are indented by `indent` and
/// two spaces for each level of nesting.
pub open spec fn operation_body(operation: OperationView, indent: Seq<char>) -> Seq<char>
    decreases operation, operation.regions.len() + 1,
{
    if prints_as_module(operation) {
        "module "@ + regions_text(operation, operation.regions.len(), indent)
    } else if operation.regions.len() == 0 {
        operation_head(operation) + operation_tail(operation)
    } else {
        operation_head(operation) + " ("@ + regions_text(
            operation,
            operation.regions.len(),
            indent,
        ) + ")"@ + operation_tail(operation)
    }
}

/// The first `count` regions of an operation, with a comma and a space
/// between neighbours.
pub open spec fn regions_text(operation: OperationView, count: nat, indent: Seq<char>) -> Seq<char>
    decreases operation, count,
{
    if count == 0 || count > operation.regions.len() {
        Seq::empty()
    } else if count == 1 {
        region_text(operation.regions[0], indent)
    } else {
        regions_text(operation, (count - 1) as nat, indent) + ", "@ + region_text(
            operation.regions[count - 1],
            indent,
        )
    }
}

/// A region: its blocks between braces.
pub open spec fn region_text(region: RegionView, indent: Seq<char>) -> Seq<char>
    decreases region, region.blocks.len() + 1,
{
    "{\n"@ + blocks_text(region, region.blocks.len(), indent) + indent + "}"@
}

/// The first `count` blocks of a region. The first block has a label only
/// where it has arguments.
pub open spec fn blocks_text(region: RegionView, count: nat, indent: Seq<char>) -> Seq<char>
    decreases region, count,
{
    if count == 0 || count > region.blocks.len() {
        Seq::empty()
    } else {
        blocks_text(region, (count - 1) as nat, indent) + block_text(
            region.blocks[count - 1],
            count > 1 || region.blocks[count - 1].arguments.len() > 0,
            indent,
        )
    }
}

/// A block: its label on a line of its own where one is wanted, then its
/// operations, one level deeper.
pub open spec fn block_text(block: BlockView, labelled: bool, indent: Seq<char>) -> Seq<char>
    decreases block, block.operations.len() + 1,
{
    if labelled {
        indent + label_text(block) + ":\n"@ + operations_text(
            block,
            block.operations.len(),
            indent + "  "@,
        )
    } else {
        operations_text(block, block.operations.len(), indent + "  "@)
    }
}

/// The first `count` operations of a block, each on a line of its own.
pub open spec fn operations_text(block: BlockView, count: nat, indent: Seq<char>) -> Seq<char>
    decreases block, count,
{
    if count == 0 || count > block.operations.len() {
        Seq::empty()
    } else {
        operations_text(block, (count - 1) as nat, indent) + indent + operation_body(
            block.operations[count - 1],
            indent,
        ) + "\n"@
    }
}

/// An operation as it is rendered: its text and a line end.
pub open spec fn operation_rendering(operation: OperationView) -> Seq<char> {
    operation_body(operation, Seq::empty()) + "\n"@
}

/// An operation as it is rendered with its location: its text, a reference
/// to the location, and the location on a line of its own.
pub open spec fn operation_debug_rendering(operation: OperationView) -> Seq<char> {
    operation_body(operation, Seq::empty()) + " loc(#loc)\n#loc = "@ + location_text(
        operation.location,
    ) + "\n"@
}

/// A block as it is rendered: a fixed text while no region holds it, else
/// its label and its operations.
pub open spec fn block_rendering(block: BlockView) -> Seq<char> {
    if block.owned {
        "<<UNLINKED BLOCK>>\n"@
    } else {
        block_text(block, true, Seq::empty())
    }
}

/// An operation as it is rendered for debugging: its rendering between
/// `Operation(` and `)`.
pub open spec fn operation_debug_text(operation: OperationView) -> Seq<char> {
    "Operation(\n"@ + operation_rendering(operation) + ")"@
}

/// A block as it is rendered for debugging: its rendering between `Block(`
/// and `)`.
pub open spec fn block_debug_text(block: BlockView) -> Seq<char> {
    "Block(\n"@ + block_rendering(block) + ")"@
}

} // verus!
