//! Writing the textual form of the tree.

use super::attribute::Attribute;
use super::block::{Block, BlockView};
use super::handle::BlockHandle;
use super::location::Location;
use super::named_attribute::{attribute_views, NamedAttribute};
use super::operation::{Operation, OperationView};
use super::region::{Region, RegionView};
use super::module::has_module_shape;
use super::syntax::{
    argument_texts, attribute_text, attributes_part, block_name, block_names, block_text,
    blocks_text, joined, label_text, location_text, named_attribute_text, named_attribute_texts,
    operation_body, operation_head, operation_tail, operations_text, prints_as_module,
    region_text, regions_text, result_types_part, results_prefix, signature_part,
    successors_part, type_text, type_texts, value_text, value_texts, value_type_texts,
};
use super::types::Type;
use super::value::{Value, ValueSource};
use crate::text::{lemma_append_assoc, lemma_append_empty, write_decimal, write_signed_decimal};
use vstd::prelude::*;
use vstd::string::StringExecFns;

verus! {

/// Joining one more part puts a comma and a space before it, unless it is
/// the first.
pub proof fn lemma_joined_push(parts: Seq<Seq<char>>, part: Seq<char>)
    ensures
        joined(parts.push(part)) == if parts.len() == 0 {
            part
        } else {
            joined(parts) + ", "@ + part
        },
{
    assert(parts.push(part).drop_last() =~= parts);
    assert(parts.push(part).last() == part);
}

/// Writes a type behind the text.
pub(crate) fn write_type(out: &mut String, ty: Type)
    ensures
        final(out)@ == old(out)@ + type_text(ty),
{
    match ty {
        Type::Integer(bits) => {
            out.append("i");
            write_decimal(out, bits as u64);
            assert(out@ =~= old(out)@ + type_text(ty));
        },
        Type::Index => {
            out.append("index");
        },
    }
}

/// Writes an attribute behind the text.
pub(crate) fn write_attribute(out: &mut String, attribute: &Attribute)
    ensures
        final(out)@ == old(out)@ + attribute_text(attribute@),
{
    match attribute {
        Attribute::Unit => {
            out.append("unit");
        },
        Attribute::Integer(value, ty) => {
            write_signed_decimal(out, *value);
            out.append(" : ");
            write_type(out, *ty);
            assert(out@ =~= old(out)@ + attribute_text(attribute@));
        },
        Attribute::String(text) => {
            out.append("\"");
            out.append(text.as_str());
            out.append("\"");
            assert(out@ =~= old(out)@ + attribute_text(attribute@));
        },
        Attribute::Type(ty) => {
            write_type(out, *ty);
        },
    }
}

/// Writes a named attribute behind the text.
pub(crate) fn write_named_attribute(out: &mut String, named: &NamedAttribute)
    ensures
        final(out)@ == old(out)@ + named_attribute_text(named@),
{
    out.append(named.identifier.as_str());
    out.append(" = ");
    write_attribute(out, &named.attribute);
    assert(out@ =~= old(out)@ + named_attribute_text(named@));
}

/// Writes a location behind the text.
pub(crate) fn write_location(out: &mut String, location: &Location)
    ensures
        final(out)@ == old(out)@ + location_text(location@),
{
    match location {
        Location::Unknown => {
            out.append("loc(unknown)");
        },
        Location::File { file, line, column } => {
            out.append("loc(\"");
            out.append(file.as_str());
            out.append("\":");
            write_decimal(out, *line as u64);
            out.append(":");
            write_decimal(out, *column as u64);
            out.append(")");
            assert(out@ =~= old(out)@ + location_text(location@));
        },
    }
}

/// Writes the name of a value behind the text.
pub(crate) fn write_value(out: &mut String, value: Value)
    ensures
        final(out)@ == old(out)@ + value_text(value),
{
    match value.source {
        ValueSource::Argument(_, position) => {
            out.append("%arg");
            write_decimal(out, position as u64);
            assert(out@ =~= old(out)@ + value_text(value));
        },
        ValueSource::Result(operation, position) => {
            out.append("%");
            write_decimal(out, operation.0);
            if position != 0 {
                out.append("#");
                write_decimal(out, position as u64);
            }
            assert(out@ =~= old(out)@ + value_text(value));
        },
    }
}

/// Writes the name of a block behind the text.
pub(crate) fn write_block_name(out: &mut String, handle: BlockHandle)
    ensures
        final(out)@ == old(out)@ + block_name(handle),
{
    out.append("^bb");
    write_decimal(out, handle.0);
    assert(out@ =~= old(out)@ + block_name(handle));
}

/// Writes the names of the values behind the text, with commas between.
pub(crate) fn write_values(out: &mut String, values: &Vec<Value>)
    ensures
        final(out)@ == old(out)@ + joined(value_texts(values@, values@.len() as int)),
{
    let mut i: usize = 0;
    assert(out@ =~= old(out)@ + joined(value_texts(values@, 0)));
    while i < values.len()
        invariant
            i <= values@.len(),
            out@ == old(out)@ + joined(value_texts(values@, i as int)),
        decreases values@.len() - i,
    {
        if i > 0 {
            out.append(", ");
        }
        write_value(out, values[i]);
        proof {
            let parts = value_texts(values@, i as int);
            assert(value_texts(values@, i + 1) =~= parts.push(value_text(values@[i as int])));
            lemma_joined_push(parts, value_text(values@[i as int]));
            assert(out@ =~= old(out)@ + joined(value_texts(values@, i + 1)));
        }
        i += 1;
    }
}

/// Writes the types of the values behind the text, with commas between.
pub(crate) fn write_value_types(out: &mut String, values: &Vec<Value>)
    ensures
        final(out)@ == old(out)@ + joined(value_type_texts(values@, values@.len() as int)),
{
    let mut i: usize = 0;
    assert(out@ =~= old(out)@ + joined(value_type_texts(values@, 0)));
    while i < values.len()
        invariant
            i <= values@.len(),
            out@ == old(out)@ + joined(value_type_texts(values@, i as int)),
        decreases values@.len() - i,
    {
        if i > 0 {
            out.append(", ");
        }
        write_type(out, values[i].ty);
        proof {
            let parts = value_type_texts(values@, i as int);
            assert(value_type_texts(values@, i + 1) =~= parts.push(type_text(values@[i as int].ty)));
            lemma_joined_push(parts, type_text(values@[i as int].ty));
            assert(out@ =~= old(out)@ + joined(value_type_texts(values@, i + 1)));
        }
        i += 1;
    }
}

/// Writes the types behind the text, with commas between.
pub(crate) fn write_types(out: &mut String, types: &Vec<Type>)
    ensures
        final(out)@ == old(out)@ + joined(type_texts(types@, types@.len() as int)),
{
    let mut i: usize = 0;
    assert(out@ =~= old(out)@ + joined(type_texts(types@, 0)));
    while i < types.len()
        invariant
            i <= types@.len(),
            out@ == old(out)@ + joined(type_texts(types@, i as int)),
        decreases types@.len() - i,
    {
        if i > 0 {
            out.append(", ");
        }
        write_type(out, types[i]);
        proof {
            let parts = type_texts(types@, i as int);
            assert(type_texts(types@, i + 1) =~= parts.push(type_text(types@[i as int])));
            lemma_joined_push(parts, type_text(types@[i as int]));
            assert(out@ =~= old(out)@ + joined(type_texts(types@, i + 1)));
        }
        i += 1;
    }
}

/// Writes the names of the blocks behind the text, with commas between.
pub(crate) fn write_block_names(out: &mut String, blocks: &Vec<BlockHandle>)
    ensures
        final(out)@ == old(out)@ + joined(block_names(blocks@, blocks@.len() as int)),
{
    let mut i: usize = 0;
    assert(out@ =~= old(out)@ + joined(block_names(blocks@, 0)));
    while i < blocks.len()
        invariant
            i <= blocks@.len(),
            out@ == old(out)@ + joined(block_names(blocks@, i as int)),
        decreases blocks@.len() - i,
    {
        if i > 0 {
            out.append(", ");
        }
        write_block_name(out, blocks[i]);
        proof {
            let parts = block_names(blocks@, i as int);
            assert(block_names(blocks@, i + 1) =~= parts.push(block_name(blocks@[i as int])));
            lemma_joined_push(parts, block_name(blocks@[i as int]));
            assert(out@ =~= old(out)@ + joined(block_names(blocks@, i + 1)));
        }
        i += 1;
    }
}

/// Writes the named attributes behind the text, with commas between.
pub(crate) fn write_named_attributes(out: &mut String, attributes: &Vec<NamedAttribute>)
    ensures
        final(out)@ == old(out)@ + joined(
            named_attribute_texts(attribute_views(attributes@), attributes@.len() as int),
        ),
{
    let ghost views = attribute_views(attributes@);
    let mut i: usize = 0;
    assert(out@ =~= old(out)@ + joined(named_attribute_texts(views, 0)));
    while i < attributes.len()
        invariant
            i <= attributes@.len(),
            views == attribute_views(attributes@),
            out@ == old(out)@ + joined(named_attribute_texts(views, i as int)),
        decreases attributes@.len() - i,
    {
        if i > 0 {
            out.append(", ");
        }
        write_named_attribute(out, &attributes[i]);
        proof {
            let parts = named_attribute_texts(views, i as int);
            assert(named_attribute_texts(views, i + 1) =~= parts.push(
                named_attribute_text(views[i as int]),
            ));
            lemma_joined_push(parts, named_attribute_text(views[i as int]));
            assert(out@ =~= old(out)@ + joined(named_attribute_texts(views, i + 1)));
        }
        i += 1;
    }
}

/// An operation is written in the short form of a module, or in the
/// general form.
pub proof fn lemma_operation_body(operation: OperationView, indent: Seq<char>)
    ensures
        operation_body(operation, indent) == if prints_as_module(operation) {
            "module "@ + regions_text(operation, operation.regions.len(), indent)
        } else if operation.regions.len() == 0 {
            operation_head(operation) + operation_tail(operation)
        } else {
            operation_head(operation) + " ("@ + regions_text(
                operation,
                operation.regions.len(),
                indent,
            ) + ")"@ + operation_tail(operation)
        },
{
}

/// One more region is written behind those before it, after a comma and a
/// space unless it is the first.
pub proof fn lemma_regions_text_step(operation: OperationView, i: nat, indent: Seq<char>)
    requires
        i < operation.regions.len(),
    ensures
        regions_text(operation, i + 1, indent) == if i == 0 {
            region_text(operation.regions[0], indent)
        } else {
            regions_text(operation, i, indent) + ", "@ + region_text(
                operation.regions[i as int],
                indent,
            )
        },
{
}

/// No regions are written as nothing.
pub proof fn lemma_regions_text_none(operation: OperationView, indent: Seq<char>)
    ensures
        regions_text(operation, 0, indent) == Seq::<char>::empty(),
{
}

/// A region is written as its blocks between braces.
pub proof fn lemma_region_text(region: RegionView, indent: Seq<char>)
    ensures
        region_text(region, indent) == "{\n"@ + blocks_text(region, region.blocks.len(), indent)
            + indent + "}"@,
{
}

/// One more block is written behind those before it.
pub proof fn lemma_blocks_text_step(region: RegionView, i: nat, indent: Seq<char>)
    requires
        i < region.blocks.len(),
    ensures
        blocks_text(region, i + 1, indent) == blocks_text(region, i, indent) + block_text(
            region.blocks[i as int],
            i > 0 || region.blocks[i as int].arguments.len() > 0,
            indent,
        ),
{
}

/// No blocks are written as nothing.
pub proof fn lemma_blocks_text_none(region: RegionView, indent: Seq<char>)
    ensures
        blocks_text(region, 0, indent) == Seq::<char>::empty(),
{
}

/// A block is written as its label, where one is wanted, and its
/// operations.
pub proof fn lemma_block_text(block: BlockView, labelled: bool, indent: Seq<char>)
    ensures
        block_text(block, labelled, indent) == if labelled {
            indent + label_text(block) + ":\n"@ + operations_text(
                block,
                block.operations.len(),
                indent + "  "@,
            )
        } else {
            operations_text(block, block.operations.len(), indent + "  "@)
        },
{
}

/// One more operation is written behind those before it, on its own line.
pub proof fn lemma_operations_text_step(block: BlockView, i: nat, indent: Seq<char>)
    requires
        i < block.operations.len(),
    ensures
        operations_text(block, i + 1, indent) == operations_text(block, i, indent) + indent
            + operation_body(block.operations[i as int], indent) + "\n"@,
{
}

/// No operations are written as nothing.
pub proof fn lemma_operations_text_none(block: BlockView, indent: Seq<char>)
    ensures
        operations_text(block, 0, indent) == Seq::<char>::empty(),
{
}

/// Writes the arguments of a block behind the text, each with its type.
pub(crate) fn write_arguments(out: &mut String, block: &Block)
    ensures
        final(out)@ == old(out)@ + joined(
            argument_texts(block@.arguments, block@.arguments.len() as int),
        ),
{
    let ghost arguments = block@.arguments;
    let mut i: usize = 0;
    assert(out@ =~= old(out)@ + joined(argument_texts(arguments, 0)));
    while i < block.arguments.len()
        invariant
            i <= block.arguments@.len(),
            arguments == block@.arguments,
            out@ == old(out)@ + joined(argument_texts(arguments, i as int)),
        decreases block.arguments@.len() - i,
    {
        if i > 0 {
            out.append(", ");
        }
        let ghost start = out@;
        out.append("%arg");
        write_decimal(out, i as u64);
        out.append(": ");
        write_type(out, block.arguments[i].0);
        proof {
            let parts = argument_texts(arguments, i as int);
            let part = argument_texts(arguments, i + 1)[i as int];
            assert(out@ =~= start + part);
            assert(argument_texts(arguments, i + 1) =~= parts.push(part));
            lemma_joined_push(parts, part);
            assert(out@ =~= old(out)@ + joined(argument_texts(arguments, i + 1)));
        }
        i += 1;
    }
}

/// Writes the label of a block behind the text.
pub(crate) fn write_label(out: &mut String, block: &Block)
    ensures
        final(out)@ == old(out)@ + label_text(block@),
{
    write_block_name(out, block.raw);
    if block.arguments.len() > 0 {
        out.append("(");
        write_arguments(out, block);
        out.append(")");
        assert(out@ =~= old(out)@ + label_text(block@));
    }
}

/// Writes what stands before the regions of an operation.
fn write_operation_head(out: &mut String, operation: &Operation)
    ensures
        final(out)@ == old(out)@ + operation_head(operation@),
{
    if operation.results.len() > 0 {
        out.append("%");
        write_decimal(out, operation.raw.0);
        if operation.results.len() > 1 {
            out.append(":");
            write_decimal(out, operation.results.len() as u64);
        }
        out.append(" = ");
    }
    assert(out@ =~= old(out)@ + results_prefix(operation@));
    out.append("\"");
    out.append(operation.name.as_str());
    out.append("\"(");
    write_values(out, &operation.operands);
    out.append(")");
    let ghost middle = out@;
    if operation.successors.len() > 0 {
        out.append("[");
        write_block_names(out, &operation.successors);
        out.append("]");
    }
    assert(out@ =~= middle + successors_part(operation@));
    assert(out@ =~= old(out)@ + operation_head(operation@));
}

/// Writes what stands behind the regions of an operation.
fn write_operation_tail(out: &mut String, operation: &Operation)
    ensures
        final(out)@ == old(out)@ + operation_tail(operation@),
{
    if operation.attributes.len() > 0 {
        out.append(" {");
        write_named_attributes(out, &operation.attributes);
        out.append("}");
    }
    assert(out@ =~= old(out)@ + attributes_part(operation@));
    let ghost middle = out@;
    out.append(" : (");
    write_value_types(out, &operation.operands);
    out.append(") -> ");
    let ghost arrow = out@;
    if operation.results.len() == 1 {
        write_type(out, operation.results[0]);
    } else {
        out.append("(");
        write_types(out, &operation.results);
        out.append(")");
    }
    assert(out@ =~= arrow + result_types_part(operation@));
    assert(out@ =~= middle + signature_part(operation@));
    assert(out@ =~= old(out)@ + operation_tail(operation@));
}

/// Writes the regions of an operation behind the text, with commas between.
fn write_regions(out: &mut String, operation: &Operation, indent: &str)
    ensures
        final(out)@ == old(out)@ + regions_text(
            operation@,
            operation@.regions.len(),
            indent@,
        ),
    decreases operation, 0int,
{
    proof {
        lemma_regions_text_none(operation@, indent@);
        lemma_append_empty(old(out)@);
    }
    let mut i: usize = 0;
    while i < operation.regions.len()
        invariant
            i <= operation.regions@.len(),
            operation@.regions.len() == operation.regions@.len(),
            out@ == old(out)@ + regions_text(operation@, i as nat, indent@),
        decreases operation.regions@.len() - i,
    {
        if i > 0 {
            out.append(", ");
        }
        write_region(out, &operation.regions[i], indent);
        proof {
            let text = region_text(operation@.regions[i as int], indent@);
            let so_far = regions_text(operation@, i as nat, indent@);
            lemma_regions_text_step(operation@, i as nat, indent@);
            if i == 0 {
                lemma_regions_text_none(operation@, indent@);
                lemma_append_empty(old(out)@);
            } else {
                lemma_append_assoc(old(out)@, so_far, ", "@);
                lemma_append_assoc(old(out)@, so_far + ", "@, text);
            }
        }
        i += 1;
    }
}

/// Writes an operation, without indentation and line end, behind the text.
pub(crate) fn write_operation_body(out: &mut String, operation: &Operation, indent: &str)
    ensures
        final(out)@ == old(out)@ + operation_body(operation@, indent@),
    decreases operation, 1int,
{
    let as_module = has_module_shape(operation) && operation.operands.len() == 0
        && operation.results.len() == 0 && operation.attributes.len() == 0
        && operation.successors.len() == 0;
    proof {
        lemma_operation_body(operation@, indent@);
    }
    let ghost regions = regions_text(operation@, operation@.regions.len(), indent@);
    let ghost head = operation_head(operation@);
    let ghost tail = operation_tail(operation@);
    if as_module {
        out.append("module ");
        write_regions(out, operation, indent);
        proof {
            lemma_append_assoc(old(out)@, "module "@, regions);
        }
    } else if operation.regions.len() == 0 {
        write_operation_head(out, operation);
        write_operation_tail(out, operation);
        proof {
            lemma_append_assoc(old(out)@, head, tail);
        }
    } else {
        write_operation_head(out, operation);
        out.append(" (");
        write_regions(out, operation, indent);
        out.append(")");
        write_operation_tail(out, operation);
        proof {
            lemma_append_assoc(old(out)@, head, " ("@);
            lemma_append_assoc(old(out)@, head + " ("@, regions);
            lemma_append_assoc(old(out)@, head + " ("@ + regions, ")"@);
            lemma_append_assoc(old(out)@, head + " ("@ + regions + ")"@, tail);
        }
    }
}

/// Writes the blocks of a region behind the text.
fn write_blocks(out: &mut String, region: &Region, indent: &str)
    ensures
        final(out)@ == old(out)@ + blocks_text(region@, region@.blocks.len(), indent@),
    decreases region, 0int,
{
    proof {
        lemma_blocks_text_none(region@, indent@);
        lemma_append_empty(old(out)@);
    }
    let mut i: usize = 0;
    while i < region.blocks.len()
        invariant
            i <= region.blocks@.len(),
            region@.blocks.len() == region.blocks@.len(),
            out@ == old(out)@ + blocks_text(region@, i as nat, indent@),
        decreases region.blocks@.len() - i,
    {
        let labelled = i > 0 || region.blocks[i].arguments.len() > 0;
        write_block(out, &region.blocks[i], labelled, indent);
        proof {
            let text = block_text(region@.blocks[i as int], labelled, indent@);
            lemma_blocks_text_step(region@, i as nat, indent@);
            lemma_append_assoc(old(out)@, blocks_text(region@, i as nat, indent@), text);
        }
        i += 1;
    }
}

/// Writes a region behind the text.
pub(crate) fn write_region(out: &mut String, region: &Region, indent: &str)
    ensures
        final(out)@ == old(out)@ + region_text(region@, indent@),
    decreases region, 1int,
{
    out.append("{\n");
    write_blocks(out, region, indent);
    out.append(indent);
    out.append("}");
    proof {
        let blocks = blocks_text(region@, region@.blocks.len(), indent@);
        lemma_region_text(region@, indent@);
        lemma_append_assoc(old(out)@, "{\n"@, blocks);
        lemma_append_assoc(old(out)@, "{\n"@ + blocks, indent@);
        lemma_append_assoc(old(out)@, "{\n"@ + blocks + indent@, "}"@);
    }
}

/// Writes the operations of a block behind the text, each on its own line.
fn write_operations(out: &mut String, block: &Block, indent: &str)
    ensures
        final(out)@ == old(out)@ + operations_text(block@, block@.operations.len(), indent@),
    decreases block, 0int,
{
    proof {
        lemma_operations_text_none(block@, indent@);
        lemma_append_empty(old(out)@);
    }
    let mut i: usize = 0;
    while i < block.operations.len()
        invariant
            i <= block.operations@.len(),
            block@.operations.len() == block.operations@.len(),
            out@ == old(out)@ + operations_text(block@, i as nat, indent@),
        decreases block.operations@.len() - i,
    {
        out.append(indent);
        write_operation_body(out, &block.operations[i], indent);
        out.append("\n");
        proof {
            let text = operation_body(block@.operations[i as int], indent@);
            let so_far = operations_text(block@, i as nat, indent@);
            lemma_operations_text_step(block@, i as nat, indent@);
            lemma_append_assoc(old(out)@, so_far, indent@);
            lemma_append_assoc(old(out)@, so_far + indent@, text);
            lemma_append_assoc(old(out)@, so_far + indent@ + text, "\n"@);
        }
        i += 1;
    }
}

/// Writes a block behind the text.
pub(crate) fn write_block(out: &mut String, block: &Block, labelled: bool, indent: &str)
    ensures
        final(out)@ == old(out)@ + block_text(block@, labelled, indent@),
    decreases block, 1int,
{
    let mut inner = String::from_str(indent);
    inner.append("  ");
    proof {
        lemma_block_text(block@, labelled, indent@);
    }
    let ghost operations = operations_text(block@, block@.operations.len(), inner@);
    if labelled {
        out.append(indent);
        write_label(out, block);
        out.append(":\n");
        write_operations(out, block, inner.as_str());
        proof {
            let label = label_text(block@);
            lemma_append_assoc(old(out)@, indent@, label);
            lemma_append_assoc(old(out)@, indent@ + label, ":\n"@);
            lemma_append_assoc(old(out)@, indent@ + label + ":\n"@, operations);
        }
    } else {
        write_operations(out, block, inner.as_str());
    }
}

} // verus!
