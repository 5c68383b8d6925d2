//! What holds of the tree whatever is built: laws that relate several
//! functions of the library, stated over the views that their contracts use.

use crate::context::ContextView;
use crate::ir::block::{Block, BlockView};
use crate::ir::builder::BuilderView;
use crate::ir::handle::{BlockHandle, OperationHandle, RegionHandle};
use crate::ir::location::LocationView;
use crate::ir::module::ModuleView;
use crate::ir::operation::{Operation, OperationView};
use crate::ir::region::{Region, RegionView};
use crate::ir::printer::lemma_operation_body;
use crate::ir::syntax::{
    block_rendering, joined, operation_rendering, type_texts, value_texts, value_type_texts,
};
use crate::ir::types::Type;
use vstd::prelude::*;
use vstd::std_specs::cmp::PartialEqSpec;

verus! {

/// A block as it is created has no operation, hence no first operation and
/// no terminator, has exactly the arguments it was created with, belongs to
/// the caller, and is rendered as the fixed text of a block that no region
/// holds.
pub proof fn law_fresh_block_is_empty(
    context: ContextView,
    handle: BlockHandle,
    arguments: Seq<(Type, LocationView)>,
)
    ensures
        BlockView::fresh(handle, arguments).operations.len() == 0,
        !BlockView::fresh(handle, arguments).is_terminated(context),
        BlockView::fresh(handle, arguments).arguments == arguments,
        BlockView::fresh(handle, arguments).owned,
        BlockView::fresh(handle, arguments).wf(),
        block_rendering(BlockView::fresh(handle, arguments)) == "<<UNLINKED BLOCK>>\n"@,
{
}

/// A region as it is created has no block and belongs to the caller.
pub proof fn law_fresh_region_is_empty(handle: RegionHandle)
    ensures
        RegionView::fresh(handle).blocks.len() == 0,
        RegionView::fresh(handle).owned,
        RegionView::fresh(handle).wf(),
{
}

/// A module as it is created has the shape of a module, and its body has
/// neither arguments nor operations nor a terminator. None of its nodes
/// belongs to the caller.
pub proof fn law_fresh_module_is_empty(context: ContextView, first: u64, location: LocationView)
    ensures
        ModuleView::fresh(first, location).wf(),
        ModuleView::fresh(first, location).body().arguments.len() == 0,
        ModuleView::fresh(first, location).body().operations.len() == 0,
        !ModuleView::fresh(first, location).body().is_terminated(context),
        !ModuleView::fresh(first, location).operation.owned,
        ModuleView::fresh(first, location).operation.wf(),
{
    let module = ModuleView::fresh(first, location);
    assert(module.operation.regions[0].wf()) by {
        assert(module.operation.regions[0].blocks[0].wf());
    }
}

/// An operation appended to a block stands last, disowned and otherwise
/// unchanged, and the operations before it stay where they were. In a block
/// that was empty it is the first.
pub proof fn law_appended_operation_is_last(block: BlockView, operation: OperationView)
    ensures
        ({
            let after = block.with_operations(block.operations.push(operation.disowned()));
            &&& after.operations.len() == block.operations.len() + 1
            &&& after.operations.last() == operation.disowned()
            &&& after.operations.last().handle == operation.handle
            &&& !after.operations.last().owned
            &&& forall|j: int|
                0 <= j < block.operations.len() ==> after.operations[j] == block.operations[j]
            &&& block.operations.len() == 0 ==> after.operations[0].handle == operation.handle
                && after.first_at(operation.handle, 0)
        }),
{
}

/// An operation inserted behind a member stands directly behind it. The
/// member and all before it stay where they were, so the first operation
/// stays the first; all behind it move one place back.
pub proof fn law_insert_after_keeps_order(
    block: BlockView,
    reference: OperationHandle,
    at: int,
    operation: OperationView,
)
    requires
        block.first_at(reference, at),
    ensures
        ({
            let after = block.with_operations(
                block.operations.insert(at + 1, operation.disowned()),
            );
            &&& after.operations.len() == block.operations.len() + 1
            &&& after.operations[at].handle == reference
            &&& after.operations[at + 1] == operation.disowned()
            &&& after.operations[0] == block.operations[0]
            &&& forall|j: int| 0 <= j <= at ==> after.operations[j] == block.operations[j]
            &&& forall|j: int|
                at < j < block.operations.len() ==> after.operations[j + 1] == block.operations[j]
        }),
{
}

/// An operation inserted before a member stands where the member stood,
/// and the member directly behind it. Before the first operation of a block
/// it becomes the first.
pub proof fn law_insert_before_takes_place(
    block: BlockView,
    reference: OperationHandle,
    at: int,
    operation: OperationView,
)
    requires
        block.first_at(reference, at),
    ensures
        ({
            let after = block.with_operations(block.operations.insert(at, operation.disowned()));
            &&& after.operations.len() == block.operations.len() + 1
            &&& after.operations[at] == operation.disowned()
            &&& after.operations[at + 1].handle == reference
            &&& at == 0 ==> after.operations[0].handle == operation.handle
            &&& forall|j: int| 0 <= j < at ==> after.operations[j] == block.operations[j]
            &&& forall|j: int|
                at <= j < block.operations.len() ==> after.operations[j + 1] == block.operations[j]
        }),
{
}

/// A block inserted behind a member of a region stands directly behind it,
/// and the first block stays the first.
pub proof fn law_insert_block_after_keeps_order(
    region: RegionView,
    reference: BlockHandle,
    at: int,
    block: BlockView,
)
    requires
        region.first_at(reference, at),
    ensures
        ({
            let after = region.with_blocks(region.blocks.insert(at + 1, block.disowned()));
            &&& after.blocks.len() == region.blocks.len() + 1
            &&& after.blocks[at].handle == reference
            &&& after.blocks[at + 1] == block.disowned()
            &&& after.blocks[0] == region.blocks[0]
        }),
{
}

/// A block inserted before a member of a region stands where the member
/// stood; before the first block it becomes the first.
pub proof fn law_insert_block_before_takes_place(
    region: RegionView,
    reference: BlockHandle,
    at: int,
    block: BlockView,
)
    requires
        region.first_at(reference, at),
    ensures
        ({
            let after = region.with_blocks(region.blocks.insert(at, block.disowned()));
            &&& after.blocks.len() == region.blocks.len() + 1
            &&& after.blocks[at] == block.disowned()
            &&& after.blocks[at + 1].handle == reference
            &&& at == 0 ==> after.blocks[0].handle == block.handle
        }),
{
}

/// Attaching flips ownership once: a disowned node is not owned, keeps its
/// handle, and disowning it again changes nothing.
pub proof fn law_ownership_flips_once(operation: OperationView, block: BlockView, region: RegionView)
    ensures
        !operation.disowned().owned,
        operation.disowned().handle == operation.handle,
        operation.disowned().disowned() == operation.disowned(),
        !block.disowned().owned,
        block.disowned().handle == block.handle,
        block.disowned().disowned() == block.disowned(),
        !region.disowned().owned,
        region.disowned().handle == region.handle,
        region.disowned().disowned() == region.disowned(),
{
}

/// A well-formed block that takes over a well-formed operation, at any
/// position, is well formed: all its members are disowned, all the way
/// down.
pub proof fn law_attached_operation_keeps_block_sound(
    block: BlockView,
    position: int,
    operation: OperationView,
)
    requires
        block.wf(),
        operation.wf(),
        0 <= position <= block.operations.len(),
    ensures
        block.with_operations(block.operations.insert(position, operation.disowned())).wf(),
        block.with_operations(block.operations.push(operation.disowned())).wf(),
{
    let inserted = block.with_operations(block.operations.insert(position, operation.disowned()));
    assert(operation.disowned().wf()) by {
        assert(operation.disowned().regions == operation.regions);
    }
    assert forall|i: int| 0 <= i < inserted.operations.len() implies !(
    #[trigger] inserted.operations[i]).owned && inserted.operations[i].wf() by {
        if i < position {
            assert(inserted.operations[i] == block.operations[i]);
        } else if i > position {
            assert(inserted.operations[i] == block.operations[i - 1]);
        }
    }
    let pushed = block.with_operations(block.operations.push(operation.disowned()));
    assert forall|i: int| 0 <= i < pushed.operations.len() implies !(
    #[trigger] pushed.operations[i]).owned && pushed.operations[i].wf() by {
        if i < block.operations.len() {
            assert(pushed.operations[i] == block.operations[i]);
        }
    }
}

/// A well-formed region that takes over a well-formed block, at any
/// position, is well formed.
pub proof fn law_attached_block_keeps_region_sound(
    region: RegionView,
    position: int,
    block: BlockView,
)
    requires
        region.wf(),
        block.wf(),
        0 <= position <= region.blocks.len(),
    ensures
        region.with_blocks(region.blocks.insert(position, block.disowned())).wf(),
        region.with_blocks(region.blocks.push(block.disowned())).wf(),
{
    let inserted = region.with_blocks(region.blocks.insert(position, block.disowned()));
    assert(block.disowned().wf()) by {
        assert(block.disowned().operations == block.operations);
    }
    assert forall|i: int| 0 <= i < inserted.blocks.len() implies !(
    #[trigger] inserted.blocks[i]).owned && inserted.blocks[i].wf() by {
        if i < position {
            assert(inserted.blocks[i] == region.blocks[i]);
        } else if i > position {
            assert(inserted.blocks[i] == region.blocks[i - 1]);
        }
    }
    let pushed = region.with_blocks(region.blocks.push(block.disowned()));
    assert forall|i: int| 0 <= i < pushed.blocks.len() implies !(
    #[trigger] pushed.blocks[i]).owned && pushed.blocks[i].wf() by {
        if i < region.blocks.len() {
            assert(pushed.blocks[i] == region.blocks[i]);
        }
    }
}

/// An operation built from well-formed regions belongs to the caller and is
/// well formed: it has taken over every region.
pub proof fn law_built_operation_is_sound(builder: BuilderView, handle: OperationHandle)
    requires
        forall|i: int| 0 <= i < builder.regions.len() ==> (#[trigger] builder.regions[i]).wf(),
    ensures
        builder.operation(handle).owned,
        builder.operation(handle).handle == handle,
        builder.operation(handle).regions.len() == builder.regions.len(),
        builder.operation(handle).wf(),
{
    let built = builder.operation(handle);
    assert forall|i: int| 0 <= i < built.regions.len() implies !(#[trigger] built.regions[i]).owned
        && built.regions[i].wf() by {
        assert(built.regions[i] == builder.regions[i].disowned());
        assert(builder.regions[i].wf());
        assert(built.regions[i].blocks == builder.regions[i].blocks);
    }
}

/// An operation that has a name and nothing else is rendered on one line:
/// the name between double quotes, an empty list of operands, and a
/// signature from nothing to nothing.
pub proof fn law_plain_operation_rendering(operation: OperationView)
    requires
        operation.operands.len() == 0,
        operation.results.len() == 0,
        operation.attributes.len() == 0,
        operation.successors.len() == 0,
        operation.regions.len() == 0,
    ensures
        operation_rendering(operation) == "\""@ + operation.name + "\"() : () -> ()\n"@,
{
    reveal_strlit("\"");
    reveal_strlit("\"(");
    reveal_strlit(")");
    reveal_strlit("(");
    reveal_strlit(" : (");
    reveal_strlit(") -> ");
    reveal_strlit("\n");
    reveal_strlit("\"() : () -> ()\n");
    lemma_operation_body(operation, Seq::empty());
    assert(joined(Seq::<Seq<char>>::empty()) == Seq::<char>::empty());
    assert(value_texts(operation.operands, 0) =~= Seq::<Seq<char>>::empty());
    assert(value_type_texts(operation.operands, 0) =~= Seq::<Seq<char>>::empty());
    assert(type_texts(operation.results, 0) =~= Seq::<Seq<char>>::empty());
    assert(operation_rendering(operation) =~= "\""@ + operation.name + "\"() : () -> ()\n"@);
}

/// Equality of nodes is equality of handles, so every node equals itself.
pub proof fn law_equality_is_reflexive(operation: Operation, block: Block, region: Region)
    ensures
        operation.eq_spec(&operation),
        block.eq_spec(&block),
        region.eq_spec(&region),
{
}

/// Nodes created one after the other differ: the context hands out a
/// handle only once, so two regions as they are created, the second from a
/// context that has handed out more, are unequal though both are empty. The
/// same holds of two blocks.
pub proof fn law_separately_created_nodes_differ(
    first: ContextView,
    second: ContextView,
    region_a: Region,
    region_b: Region,
    block_a: Block,
    block_b: Block,
)
    requires
        first.next < second.next <= u64::MAX,
        region_a@ == RegionView::fresh(RegionHandle(first.next as u64)),
        region_b@ == RegionView::fresh(RegionHandle(second.next as u64)),
        block_a@.handle == BlockHandle(first.next as u64),
        block_b@.handle == BlockHandle(second.next as u64),
    ensures
        !region_a.eq_spec(&region_b),
        !region_b.eq_spec(&region_a),
        region_a@.blocks == region_b@.blocks,
        !block_a.eq_spec(&block_b),
{
}

} // verus!
