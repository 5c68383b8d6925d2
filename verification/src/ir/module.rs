//! Modules.

use super::block::{Block, BlockView};
use super::handle::{BlockHandle, ModuleHandle, OperationHandle, RegionHandle};
use super::identifier::Identifier;
use super::location::{Location, LocationView};
use super::operation::{Operation, OperationView};
use super::region::{Region, RegionView};
use crate::context::{Context, ContextView};
use vstd::prelude::*;

verus! {

/// The name of the operation that a module wraps.
pub open spec fn module_name() -> Seq<char> {
    "builtin.module"@
}

/// An operation can stand for a module: it has the module name, one region
/// and, in it, one block.
pub open spec fn is_module_shaped(operation: OperationView) -> bool {
    &&& operation.name == module_name()
    &&& operation.regions.len() == 1
    &&& operation.regions[0].blocks.len() == 1
}

/// Tells whether an operation has the shape of a module.
pub(crate) fn has_module_shape(operation: &Operation) -> (shaped: bool)
    ensures
        shaped == is_module_shaped(operation@),
{
    let wanted = Identifier::new("builtin.module");
    operation.name == wanted && operation.regions.len() == 1 && operation.regions[0].blocks.len()
        == 1
}

/// What a module is, for contracts.
pub struct ModuleView {
    pub handle: ModuleHandle,
    pub operation: OperationView,
}

impl ModuleView {
    /// The module's operation has the shape of a module.
    pub open spec fn wf(self) -> bool {
        is_module_shaped(self.operation)
    }

    /// The module's one block.
    pub open spec fn body(self) -> BlockView
        recommends
            self.wf(),
    {
        self.operation.regions[0].blocks[0]
    }

    /// The same module with another body.
    pub open spec fn with_body(self, body: BlockView) -> ModuleView
        recommends
            self.wf(),
    {
        ModuleView {
            operation: OperationView {
                regions: seq![
                    RegionView { blocks: seq![body], ..self.operation.regions[0] },
                ],
                ..self.operation
            },
            ..self
        }
    }

    /// The empty module whose nodes take the three handles from `first` on:
    /// the operation, its region, and the body. The module's handle is that
    /// of its operation. None of the nodes is owned by the caller.
    pub open spec fn fresh(first: u64, location: LocationView) -> ModuleView {
        ModuleView {
            handle: ModuleHandle(first),
            operation: OperationView {
                handle: OperationHandle(first),
                owned: false,
                name: module_name(),
                location,
                operands: Seq::empty(),
                results: Seq::empty(),
                attributes: Seq::empty(),
                successors: Seq::empty(),
                regions: seq![
                    RegionView {
                        handle: RegionHandle((first + 1) as u64),
                        owned: false,
                        blocks: seq![
                            BlockView {
                                handle: BlockHandle((first + 2) as u64),
                                owned: false,
                                arguments: Seq::empty(),
                                operations: Seq::empty(),
                            },
                        ],
                    },
                ],
            },
        }
    }
}

/// A module: the root of a tree, one operation with one region and one
/// block, the body.
#[derive(Debug)]
pub struct Module {
    raw: ModuleHandle,
    operation: Operation,
}

impl View for Module {
    type V = ModuleView;

    closed spec fn view(&self) -> ModuleView {
        ModuleView { handle: self.raw, operation: self.operation@ }
    }
}

impl Module {
    /// Creates an empty module. Its operation, region and body take the
    /// context's next three handles, so the context must have three left.
    pub fn new(context: &mut Context, location: Location) -> (module: Module)
        requires
            old(context)@.next + 3 <= u64::MAX,
        ensures
            module@ == ModuleView::fresh(old(context)@.next as u64, location@),
            module@.wf(),
            final(context)@ == (ContextView { next: old(context)@.next + 3, ..old(context)@ }),
    {
        let first = context.allocate();
        let region_id = context.allocate();
        let block_id = context.allocate();
        let body = Block {
            raw: BlockHandle(block_id),
            owned: false,
            arguments: Vec::new(),
            operations: Vec::new(),
        };
        let mut blocks: Vec<Block> = Vec::new();
        blocks.push(body);
        let region = Region { raw: RegionHandle(region_id), owned: false, blocks };
        let mut regions: Vec<Region> = Vec::new();
        regions.push(region);
        let operation = Operation {
            raw: OperationHandle(first),
            owned: false,
            name: Identifier::new("builtin.module"),
            location,
            operands: Vec::new(),
            results: Vec::new(),
            attributes: Vec::new(),
            successors: Vec::new(),
            regions,
        };
        let module = Module { raw: ModuleHandle(first), operation };
        proof {
            let want = ModuleView::fresh(old(context)@.next as u64, location@);
            assert(body@.arguments =~= Seq::empty());
            assert(body@.operations =~= Seq::empty());
            assert(region@.blocks =~= seq![body@]);
            assert(module@.operation.regions =~= seq![region@]);
            assert(module@.operation.attributes =~= Seq::empty());
            assert(module@.operation.regions =~= want.operation.regions);
        }
        module
    }

    /// Takes an operation for a module, if it has the shape of one. The
    /// module then holds it, and the caller owns it no longer.
    pub fn from_operation(operation: Operation) -> (module: Option<Module>)
        ensures
            is_module_shaped(operation@) ==> module.is_some() && module.unwrap()@ == (ModuleView {
                handle: ModuleHandle(operation@.handle.0),
                operation: operation@.disowned(),
            }) && module.unwrap()@.wf(),
            !is_module_shaped(operation@) ==> module.is_none(),
    {
        if has_module_shape(&operation) {
            let mut operation = operation;
            operation.owned = false;
            Some(Module { raw: ModuleHandle(operation.raw.0), operation })
        } else {
            None
        }
    }

    /// The module's handle.
    pub fn handle(&self) -> (handle: ModuleHandle)
        ensures
            handle == self@.handle,
    {
        self.raw
    }

    /// The operation that the module wraps.
    pub fn operation(&self) -> (operation: &Operation)
        ensures
            operation@ == self@.operation,
    {
        &self.operation
    }

    /// Tells whether the module has the shape of one. Every module has
    /// that was made by this library.
    pub fn is_well_formed(&self) -> (shaped: bool)
        ensures
            shaped == self@.wf(),
    {
        has_module_shape(&self.operation)
    }

    /// The module's body. The module must have the shape of one, as every
    /// module has that was made by this library and not changed otherwise.
    pub fn body(&self) -> (body: &Block)
        requires
            self@.wf(),
        ensures
            body@ == self@.body(),
    {
        &self.operation.regions[0].blocks[0]
    }

    /// The module's body, for changing it in place. What the caller leaves
    /// behind the reference becomes the body; nothing else changes, so the
    /// module keeps its shape.
    pub fn body_mut(&mut self) -> (body: &mut Block)
        requires
            old(self)@.wf(),
        ensures
            (*body)@ == old(self)@.body(),
            final(self)@ == old(self)@.with_body((*final(body))@),
            final(self)@.wf(),
    {
        proof {
            assert forall|after: Module, block: Block|
                after.raw == self.raw && after.operation.raw == self.operation.raw
                    && after.operation.owned == self.operation.owned && after.operation.name
                    == self.operation.name && after.operation.location == self.operation.location
                    && after.operation.operands == self.operation.operands
                    && after.operation.results == self.operation.results
                    && after.operation.attributes == self.operation.attributes
                    && after.operation.successors == self.operation.successors
                    && after.operation.regions@.len() == 1 && after.operation.regions@[0].raw
                    == self.operation.regions@[0].raw && after.operation.regions@[0].owned
                    == self.operation.regions@[0].owned && after.operation.regions@[0].blocks@
                    == self.operation.regions@[0].blocks@.update(0, block) implies #[trigger] after@
                == self@.with_body(#[trigger] block@) by {
                assert(after.operation.regions@[0]@.blocks =~= seq![block@]);
                assert(after@.operation.regions =~= self@.with_body(block@).operation.regions);
            }
        }
        &mut self.operation.regions[0].blocks[0]
    }
}

} // verus!
