//! Blocks.

use super::handle::{BlockHandle, OperationHandle};
use super::location::{Location, LocationView};
use super::operation::{Operation, OperationView};
use super::printer::write_block;
use super::syntax::{block_debug_text, block_rendering};
use super::types::Type;
use super::value::{Argument, Value, ValueSource};
use crate::text::lemma_append_empty;
use crate::context::{Context, ContextView};
use crate::error::Error;
use vstd::prelude::*;
use vstd::string::StringExecFns;

verus! {

/// What a block is, for contracts.
pub struct BlockView {
    pub handle: BlockHandle,
    pub owned: bool,
    pub arguments: Seq<(Type, LocationView)>,
    pub operations: Seq<OperationView>,
}

impl BlockView {
    /// Every operation of the block is disowned and well formed.
    pub open spec fn wf(self) -> bool
        decreases self,
    {
        forall|i: int|
            0 <= i < self.operations.len() ==> !(#[trigger] self.operations[i]).owned
                && self.operations[i].wf()
    }

    /// The same block, no longer owned by the caller.
    pub open spec fn disowned(self) -> BlockView {
        BlockView { owned: false, ..self }
    }

    /// The block as it is created: owned, with the given arguments and no
    /// operation.
    pub open spec fn fresh(handle: BlockHandle, arguments: Seq<(Type, LocationView)>) -> BlockView {
        BlockView { handle, owned: true, arguments, operations: Seq::empty() }
    }

    /// The same block with other operations.
    pub open spec fn with_operations(self, operations: Seq<OperationView>) -> BlockView {
        BlockView { operations, ..self }
    }

    /// `index` is the first position whose operation has the given handle.
    pub open spec fn first_at(self, handle: OperationHandle, index: int) -> bool {
        &&& 0 <= index < self.operations.len()
        &&& self.operations[index].handle == handle
        &&& forall|j: int| 0 <= j < index ==> (#[trigger] self.operations[j]).handle != handle
    }

    /// Some operation of the block has the given handle.
    pub open spec fn has_member(self, handle: OperationHandle) -> bool {
        exists|i: int| 0 <= i < self.operations.len() && (#[trigger] self.operations[i]).handle == handle
    }

    /// The block ends in an operation whose name the context knows as a
    /// terminator.
    pub open spec fn is_terminated(self, context: ContextView) -> bool {
        self.operations.len() > 0 && context.terminators.contains(self.operations.last().name)
    }
}

/// The arguments of a sequence, each as contracts see it.
pub open spec fn argument_views(arguments: Seq<(Type, Location)>) -> Seq<(Type, LocationView)> {
    Seq::new(arguments.len(), |i: int| (arguments[i].0, arguments[i].1@))
}

/// The operations of a sequence, each as contracts see it.
pub open spec fn operation_views(operations: Seq<Operation>) -> Seq<OperationView> {
    Seq::new(operations.len(), |i: int| operations[i]@)
}

/// A block: typed arguments and an ordered sequence of operations.
#[derive(Debug)]
pub struct Block {
    pub(crate) raw: BlockHandle,
    pub(crate) owned: bool,
    pub(crate) arguments: Vec<(Type, Location)>,
    pub(crate) operations: Vec<Operation>,
}

impl View for Block {
    type V = BlockView;

    open(crate) spec fn view(&self) -> BlockView
        decreases self,
    {
        BlockView {
            handle: self.raw,
            owned: self.owned,
            arguments: argument_views(self.arguments@),
            operations: Seq::new(
                self.operations@.len(),
                |i: int|
                    if 0 <= i < self.operations@.len() {
                        self.operations@[i]@
                    } else {
                        arbitrary()
                    },
            ),
        }
    }
}

impl Block {
    /// Creates an empty block that the caller owns, with one argument for
    /// each given pair of type and location, in order. The block takes the
    /// context's next handle, so the context must have one left.
    pub fn new(context: &mut Context, arguments: &[(Type, Location)]) -> (block: Block)
        requires
            old(context)@.next < u64::MAX,
        ensures
            block@ == BlockView::fresh(
                BlockHandle(old(context)@.next as u64),
                argument_views(arguments@),
            ),
            final(context)@ == (ContextView { next: old(context)@.next + 1, ..old(context)@ }),
    {
        let mut copied: Vec<(Type, Location)> = Vec::new();
        let mut i: usize = 0;
        while i < arguments.len()
            invariant
                i <= arguments@.len(),
                copied@.len() == i,
                forall|j: int|
                    0 <= j < i ==> (#[trigger] copied@[j]).0 == arguments@[j].0 && copied@[j].1@
                        == arguments@[j].1@,
            decreases arguments@.len() - i,
        {
            let location = arguments[i].1.clone();
            copied.push((arguments[i].0, location));
            i += 1;
        }
        let raw = BlockHandle(context.allocate());
        let block = Block { raw, owned: true, arguments: copied, operations: Vec::new() };
        assert(block@.arguments =~= argument_views(arguments@));
        assert(block@.operations =~= Seq::empty());
        block
    }

    /// Makes the block that has the given handle, arguments and operations.
    /// The block holds the operations: none of them belongs to the caller
    /// any longer. Whether the block itself does is as given.
    pub fn from_raw(
        raw: BlockHandle,
        owned: bool,
        arguments: Vec<(Type, Location)>,
        operations: Vec<Operation>,
    ) -> (block: Block)
        ensures
            block@ == (BlockView {
                handle: raw,
                owned,
                arguments: argument_views(arguments@),
                operations: operation_views(operations@).map_values(
                    |o: OperationView| o.disowned(),
                ),
            }),
    {
        let mut members = operations;
        let mut i: usize = 0;
        while i < members.len()
            invariant
                i <= members@.len(),
                members@.len() == operations@.len(),
                forall|j: int|
                    0 <= j < i ==> (#[trigger] members@[j])@ == operations@[j]@.disowned(),
                forall|j: int| i <= j < members@.len() ==> (#[trigger] members@[j]) == operations@[j],
            decreases members@.len() - i,
        {
            members[i].owned = false;
            i += 1;
        }
        let block = Block { raw, owned, arguments, operations: members };
        assert(block@.operations =~= operation_views(operations@).map_values(
            |o: OperationView| o.disowned(),
        ));
        block
    }

    /// The block's handle.
    pub fn handle(&self) -> (handle: BlockHandle)
        ensures
            handle == self@.handle,
    {
        self.raw
    }

    /// Tells whether the caller still owns the block.
    pub fn is_owned(&self) -> (owned: bool)
        ensures
            owned == self@.owned,
    {
        self.owned
    }

    /// The argument at a position, or a bounds error that carries the
    /// block's rendering and the position.
    pub fn argument(&self, position: usize) -> (result: Result<Argument, Error>)
        ensures
            position < self@.arguments.len() ==> result == Ok::<Argument, Error>(
                Argument { block: self@.handle, position, ty: self@.arguments[position as int].0 },
            ),
            position >= self@.arguments.len() ==> (result matches Err(
                Error::BlockArgumentPosition(text, at),
            ) && text@ == block_rendering(self@) && at == position),
    {
        if position < self.arguments.len() {
            Ok(Argument { block: self.raw, position, ty: self.arguments[position].0 })
        } else {
            Err(Error::BlockArgumentPosition(self.to_string(), position))
        }
    }

    /// The block as text: a fixed text while no region holds the block,
    /// else its label and its operations.
    pub fn to_string(&self) -> (text: String)
        ensures
            text@ == block_rendering(self@),
    {
        if self.owned {
            String::from_str("<<UNLINKED BLOCK>>\n")
        } else {
            let mut text = String::new();
            write_block(&mut text, self, true, "");
            proof {
                reveal_strlit("");
                assert(""@ =~= Seq::<char>::empty());
                lemma_append_empty(block_rendering(self@));
            }
            text
        }
    }

    /// The block as text for debugging.
    pub fn debug_string(&self) -> (text: String)
        ensures
            text@ == block_debug_text(self@),
    {
        let mut text = String::from_str("Block(\n");
        let rendering = self.to_string();
        text.append(rendering.as_str());
        text.append(")");
        text
    }

    /// The number of arguments.
    pub fn argument_count(&self) -> (count: usize)
        ensures
            count == self@.arguments.len(),
    {
        self.arguments.len()
    }

    /// The number of operations.
    pub fn operation_count(&self) -> (count: usize)
        ensures
            count == self@.operations.len(),
    {
        self.operations.len()
    }

    /// The operation at a position, if the block has that many.
    pub fn operation(&self, position: usize) -> (found: Option<&Operation>)
        ensures
            position >= self@.operations.len() ==> found.is_none(),
            position < self@.operations.len() ==> found.is_some() && found.unwrap()@
                == self@.operations[position as int],
    {
        if position < self.operations.len() {
            Some(&self.operations[position])
        } else {
            None
        }
    }

    /// The first operation, if there is one.
    pub fn first_operation(&self) -> (found: Option<&Operation>)
        ensures
            self@.operations.len() == 0 ==> found.is_none(),
            self@.operations.len() > 0 ==> found.is_some() && found.unwrap()@
                == self@.operations[0],
    {
        if self.operations.len() > 0 {
            Some(&self.operations[0])
        } else {
            None
        }
    }

    /// The operation that terminates the block: the last one, where the
    /// context knows its name as a terminator, looked up among the block's
    /// operations by its handle.
    pub fn terminator(&self, context: &Context) -> (found: Option<&Operation>)
        ensures
            !self@.is_terminated(context@) ==> found.is_none(),
            self@.is_terminated(context@) ==> found.is_some() && exists|i: int|
                self@.first_at(self@.operations.last().handle, i) && found.unwrap()@
                    == self@.operations[i],
    {
        let count = self.operations.len();
        if count == 0 {
            return None;
        }
        let last = &self.operations[count - 1];
        assert(last@ == self@.operations.last());
        if !context.is_terminator(last.name.as_str()) {
            return None;
        }
        let wanted = last.raw;
        let mut i: usize = 0;
        while i < count
            invariant
                count == self.operations@.len(),
                count > 0,
                i < count,
                self@.is_terminated(context@),
                wanted == self@.operations.last().handle,
                forall|j: int| 0 <= j < i ==> (#[trigger] self@.operations[j]).handle != wanted,
            decreases count - i,
        {
            if self.operations[i].raw == wanted {
                assert(self@.first_at(wanted, i as int));
                return Some(&self.operations[i]);
            }
            assert(i + 1 < count) by {
                if i + 1 == count {
                    assert(self@.operations[i as int].handle == wanted);
                }
            }
            i += 1;
        }
        None
    }

    /// Tells whether every operation of the block is held by it and no
    /// longer owned by the caller, and so on down the tree.
    pub fn verify(&self) -> (sound: bool)
        ensures
            sound == self@.wf(),
        decreases self,
    {
        let mut i: usize = 0;
        while i < self.operations.len()
            invariant
                i <= self.operations@.len(),
                forall|j: int|
                    0 <= j < i ==> !(#[trigger] self@.operations[j]).owned
                        && self@.operations[j].wf(),
            decreases self.operations@.len() - i,
        {
            if self.operations[i].owned || !self.operations[i].verify() {
                assert(self@.operations[i as int].owned || !self@.operations[i as int].wf());
                return false;
            }
            i += 1;
        }
        true
    }

    /// Adds an argument behind the others and gives it back as a value.
    pub fn add_argument(&mut self, ty: Type, location: Location) -> (value: Value)
        ensures
            final(self)@ == (BlockView {
                arguments: old(self)@.arguments.push((ty, location@)),
                ..old(self)@
            }),
            value == (Value {
                source: ValueSource::Argument(old(self)@.handle, old(self)@.arguments.len() as usize),
                ty,
            }),
    {
        let position = self.arguments.len();
        self.arguments.push((ty, location));
        assert(self@.arguments =~= old(self)@.arguments.push((ty, location@)));
        assert(self@.operations =~= old(self)@.operations);
        Value { source: ValueSource::Argument(self.raw, position), ty }
    }

    /// Appends an operation. The block takes it over: it is no longer owned
    /// by the caller, and stands last.
    pub fn append_operation(&mut self, operation: Operation) -> (handle: OperationHandle)
        ensures
            handle == operation@.handle,
            final(self)@ == old(self)@.with_operations(
                old(self)@.operations.push(operation@.disowned()),
            ),
    {
        let mut operation = operation;
        let handle = operation.raw;
        operation.owned = false;
        self.operations.push(operation);
        assert(self@.operations =~= old(self)@.operations.push(operation@.disowned()));
        assert(self@.arguments =~= old(self)@.arguments);
        handle
    }

    /// Inserts an operation at a position, which is at most the number of
    /// operations. The block takes it over.
    pub fn insert_operation(&mut self, position: usize, operation: Operation) -> (handle:
        OperationHandle)
        requires
            position <= old(self)@.operations.len(),
        ensures
            handle == operation@.handle,
            final(self)@ == old(self)@.with_operations(
                old(self)@.operations.insert(position as int, operation@.disowned()),
            ),
    {
        let mut operation = operation;
        let handle = operation.raw;
        operation.owned = false;
        self.operations.insert(position, operation);
        assert(self@.operations =~= old(self)@.operations.insert(
            position as int,
            operation@.disowned(),
        ));
        assert(self@.arguments =~= old(self)@.arguments);
        handle
    }

    /// The first position whose operation has the given handle.
    fn position_of(&self, handle: OperationHandle) -> (found: Option<usize>)
        ensures
            match found {
                Some(i) => self@.first_at(handle, i as int),
                None => !self@.has_member(handle),
            },
    {
        let mut i: usize = 0;
        while i < self.operations.len()
            invariant
                i <= self.operations@.len(),
                forall|j: int| 0 <= j < i ==> (#[trigger] self@.operations[j]).handle != handle,
            decreases self.operations@.len() - i,
        {
            if self.operations[i].raw == handle {
                return Some(i);
            }
            i += 1;
        }
        None
    }

    /// The first member that has the given handle, if there is one.
    pub fn member(&self, handle: OperationHandle) -> (found: Option<&Operation>)
        ensures
            !self@.has_member(handle) ==> found.is_none(),
            self@.has_member(handle) ==> found.is_some() && exists|i: int|
                self@.first_at(handle, i) && found.unwrap()@ == self@.operations[i],
    {
        match self.position_of(handle) {
            Some(i) => Some(&self.operations[i]),
            None => None,
        }
    }

    /// The first member that has the given handle, for changing it in
    /// place. What the caller leaves behind the reference takes the
    /// member's place; nothing else changes.
    pub fn member_mut(&mut self, handle: OperationHandle) -> (found: Option<&mut Operation>)
        ensures
            !old(self)@.has_member(handle) ==> found.is_none() && final(self)@ == old(self)@,
            old(self)@.has_member(handle) ==> found.is_some() && exists|i: int|
                old(self)@.first_at(handle, i) && (*found.unwrap())@ == old(self)@.operations[i]
                    && final(self)@ == old(self)@.with_operations(
                    old(self)@.operations.update(i, (*final(found.unwrap()))@),
                ),
    {
        match self.position_of(handle) {
            Some(i) => {
                proof {
                    assert forall|after: Block, operation: Operation|
                        after.raw == self.raw && after.owned == self.owned && after.arguments
                            == self.arguments && after.operations@ == self.operations@.update(
                            i as int,
                            operation,
                        ) implies #[trigger] after@ == self@.with_operations(
                        self@.operations.update(i as int, #[trigger] operation@),
                    ) by {
                        assert(after@.operations =~= self@.operations.update(
                            i as int,
                            operation@,
                        ));
                    }
                }
                Some(&mut self.operations[i])
            },
            None => None,
        }
    }

    /// Inserts an operation directly behind the first member that has the
    /// reference handle. Without such a member the block stays as it is.
    pub fn insert_operation_after(&mut self, reference: OperationHandle, other: Operation) -> (result:
        Result<OperationHandle, Error>)
        ensures
            old(self)@.has_member(reference) ==> result == Ok::<OperationHandle, Error>(
                other@.handle,
            ) && exists|i: int|
                old(self)@.first_at(reference, i) && final(self)@ == old(self)@.with_operations(
                    old(self)@.operations.insert(i + 1, other@.disowned()),
                ),
            !old(self)@.has_member(reference) ==> result == Err::<OperationHandle, Error>(
                Error::OperationNotFound,
            ) && final(self)@ == old(self)@,
    {
        match self.position_of(reference) {
            Some(i) => {
                let count = self.operations.len();
                assert(i < count);
                let handle = self.insert_operation(i + 1, other);
                Ok(handle)
            },
            None => Err(Error::OperationNotFound),
        }
    }

    /// Inserts an operation directly before the first member that has the
    /// reference handle. Without such a member the block stays as it is.
    pub fn insert_operation_before(&mut self, reference: OperationHandle, other: Operation) -> (result:
        Result<OperationHandle, Error>)
        ensures
            old(self)@.has_member(reference) ==> result == Ok::<OperationHandle, Error>(
                other@.handle,
            ) && exists|i: int|
                old(self)@.first_at(reference, i) && final(self)@ == old(self)@.with_operations(
                    old(self)@.operations.insert(i, other@.disowned()),
                ),
            !old(self)@.has_member(reference) ==> result == Err::<OperationHandle, Error>(
                Error::OperationNotFound,
            ) && final(self)@ == old(self)@,
    {
        match self.position_of(reference) {
            Some(i) => {
                let handle = self.insert_operation(i, other);
                Ok(handle)
            },
            None => Err(Error::OperationNotFound),
        }
    }
}

impl PartialEq for Block {
    fn eq(&self, other: &Block) -> (equal: bool) {
        self.raw == other.raw
    }
}

impl Eq for Block {}

impl vstd::std_specs::cmp::PartialEqSpecImpl for Block {
    open spec fn obeys_eq_spec() -> bool {
        true
    }

    open spec fn eq_spec(&self, other: &Block) -> bool {
        self@.handle == other@.handle
    }
}

} // verus!
