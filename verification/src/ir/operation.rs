//! Operations.

use super::builder::{Builder, BuilderView};
use super::handle::{BlockHandle, OperationHandle};
use super::identifier::Identifier;
use super::location::{Location, LocationView};
use super::named_attribute::{attribute_views, NamedAttribute, NamedAttributeView};
use super::region::{Region, RegionView};
use super::printer::{write_location, write_operation_body};
use super::syntax::{operation_debug_rendering, operation_debug_text, operation_rendering};
use super::types::Type;
use super::value::{ResultValue, Value};
use crate::error::Error;
use crate::text::lemma_append_empty;
use vstd::prelude::*;
use vstd::string::StringExecFns;

verus! {

/// What an operation is, for contracts.
pub struct OperationView {
    pub handle: OperationHandle,
    pub owned: bool,
    pub name: Seq<char>,
    pub location: LocationView,
    pub operands: Seq<Value>,
    pub results: Seq<Type>,
    pub attributes: Seq<NamedAttributeView>,
    pub successors: Seq<BlockHandle>,
    pub regions: Seq<RegionView>,
}

impl OperationView {
    /// Every region of the operation is disowned and well formed.
    pub open spec fn wf(self) -> bool
        decreases self,
    {
        forall|i: int|
            0 <= i < self.regions.len() ==> !(#[trigger] self.regions[i]).owned
                && self.regions[i].wf()
    }

    /// The same operation, no longer owned by the caller.
    pub open spec fn disowned(self) -> OperationView {
        OperationView { owned: false, ..self }
    }
}

/// An operation: a name, operands, results, attributes and nested regions.
#[derive(Debug)]
pub struct Operation {
    pub(crate) raw: OperationHandle,
    pub(crate) owned: bool,
    pub(crate) name: Identifier,
    pub(crate) location: Location,
    pub(crate) operands: Vec<Value>,
    pub(crate) results: Vec<Type>,
    pub(crate) attributes: Vec<NamedAttribute>,
    pub(crate) successors: Vec<BlockHandle>,
    pub(crate) regions: Vec<Region>,
}

impl View for Operation {
    type V = OperationView;

    open(crate) spec fn view(&self) -> OperationView
        decreases self,
    {
        OperationView {
            handle: self.raw,
            owned: self.owned,
            name: self.name@,
            location: self.location@,
            operands: self.operands@,
            results: self.results@,
            attributes: attribute_views(self.attributes@),
            successors: self.successors@,
            regions: Seq::new(
                self.regions@.len(),
                |i: int|
                    if 0 <= i < self.regions@.len() {
                        self.regions@[i]@
                    } else {
                        arbitrary()
                    },
            ),
        }
    }
}

impl Operation {
    /// Makes the operation that has the given handle and the parts that a
    /// builder has gathered. The operation holds the regions: none of them
    /// belongs to the caller any longer. Whether the operation itself does
    /// is as given.
    pub fn from_raw(raw: OperationHandle, owned: bool, parts: Builder) -> (operation: Operation)
        ensures
            operation@ == (OperationView { owned, ..parts@.operation(raw) }),
    {
        let mut regions = parts.regions;
        let ghost before = regions@;
        let mut i: usize = 0;
        while i < regions.len()
            invariant
                i <= regions@.len(),
                regions@.len() == before.len(),
                forall|j: int| 0 <= j < i ==> (#[trigger] regions@[j])@ == before[j]@.disowned(),
                forall|j: int| i <= j < regions@.len() ==> (#[trigger] regions@[j]) == before[j],
            decreases regions@.len() - i,
        {
            regions[i].owned = false;
            i += 1;
        }
        let operation = Operation {
            raw,
            owned,
            name: parts.name,
            location: parts.location,
            operands: parts.operands,
            results: parts.results,
            attributes: parts.attributes,
            successors: parts.successors,
            regions,
        };
        assert(operation@.regions =~= parts@.regions.map_values(|r: RegionView| r.disowned()));
        operation
    }

    /// The operation's handle.
    pub fn handle(&self) -> (handle: OperationHandle)
        ensures
            handle == self@.handle,
    {
        self.raw
    }

    /// Tells whether the caller still owns the operation.
    pub fn is_owned(&self) -> (owned: bool)
        ensures
            owned == self@.owned,
    {
        self.owned
    }

    /// The operation's name.
    pub fn name(&self) -> (name: Identifier)
        ensures
            name@ == self@.name,
    {
        self.name.clone()
    }

    /// The result at a position, or a bounds error that carries the
    /// operation's rendering and the position.
    pub fn result(&self, position: usize) -> (result: Result<ResultValue, Error>)
        ensures
            position < self@.results.len() ==> result == Ok::<ResultValue, Error>(
                ResultValue {
                    operation: self@.handle,
                    position,
                    ty: self@.results[position as int],
                },
            ),
            position >= self@.results.len() ==> (result matches Err(
                Error::OperationResultPosition(text, at),
            ) && text@ == operation_rendering(self@) && at == position),
    {
        if position < self.results.len() {
            Ok(ResultValue { operation: self.raw, position, ty: self.results[position] })
        } else {
            Err(Error::OperationResultPosition(self.to_string(), position))
        }
    }

    /// The operation as text: one line for an operation without regions.
    pub fn to_string(&self) -> (text: String)
        ensures
            text@ == operation_rendering(self@),
    {
        let mut text = String::new();
        write_operation_body(&mut text, self, "");
        text.append("\n");
        proof {
            reveal_strlit("");
            assert(""@ =~= Seq::<char>::empty());
            lemma_append_empty(operation_rendering(self@));
        }
        text
    }

    /// The operation as text for debugging.
    pub fn debug_string(&self) -> (text: String)
        ensures
            text@ == operation_debug_text(self@),
    {
        let mut text = String::from_str("Operation(\n");
        let rendering = self.to_string();
        text.append(rendering.as_str());
        text.append(")");
        text
    }

    /// The operation as text, with its location.
    pub fn debug_print(&self) -> (text: String)
        ensures
            text@ == operation_debug_rendering(self@),
    {
        let mut text = String::new();
        write_operation_body(&mut text, self, "");
        text.append(" loc(#loc)\n#loc = ");
        write_location(&mut text, &self.location);
        text.append("\n");
        proof {
            reveal_strlit("");
            assert(""@ =~= Seq::<char>::empty());
            lemma_append_empty(operation_debug_rendering(self@));
        }
        text
    }

    /// The number of results.
    pub fn result_count(&self) -> (count: usize)
        ensures
            count == self@.results.len(),
    {
        self.results.len()
    }

    /// The region at an index, if the operation has that many.
    pub fn region(&self, index: usize) -> (found: Option<&Region>)
        ensures
            index >= self@.regions.len() ==> found.is_none(),
            index < self@.regions.len() ==> found.is_some() && found.unwrap()@
                == self@.regions[index as int],
    {
        if index < self.regions.len() {
            Some(&self.regions[index])
        } else {
            None
        }
    }

    /// The region at an index, for changing it in place. What the caller
    /// leaves behind the reference becomes the operation's region at that
    /// index; nothing else changes.
    pub fn region_mut(&mut self, index: usize) -> (found: Option<&mut Region>)
        ensures
            index >= old(self)@.regions.len() ==> found.is_none() && final(self)@ == old(self)@,
            index < old(self)@.regions.len() ==> found.is_some() && (*found.unwrap())@
                == old(self)@.regions[index as int] && final(self)@ == (OperationView {
                regions: old(self)@.regions.update(index as int, (*final(found.unwrap()))@),
                ..old(self)@
            }),
    {
        if index < self.regions.len() {
            proof {
                assert forall|after: Operation, region: Region|
                    after.regions@ == self.regions@.update(index as int, region) implies (
                    #[trigger] after@).regions == self@.regions.update(
                    index as int,
                    #[trigger] region@,
                ) by {
                    assert(after@.regions =~= self@.regions.update(index as int, region@));
                }
            }
            Some(&mut self.regions[index])
        } else {
            None
        }
    }

    /// Verifies the operation: tells whether every region of it is held by
    /// it and no longer owned by the caller, and so on down the tree.
    /// Nothing is changed, and nothing else is checked.
    pub fn verify(&self) -> (sound: bool)
        ensures
            sound == self@.wf(),
        decreases self,
    {
        let mut i: usize = 0;
        while i < self.regions.len()
            invariant
                i <= self.regions@.len(),
                forall|j: int|
                    0 <= j < i ==> !(#[trigger] self@.regions[j]).owned && self@.regions[j].wf(),
            decreases self.regions@.len() - i,
        {
            if self.regions[i].owned || !self.regions[i].verify() {
                assert(self@.regions[i as int].owned || !self@.regions[i as int].wf());
                return false;
            }
            i += 1;
        }
        true
    }

    /// The number of regions.
    pub fn region_count(&self) -> (count: usize)
        ensures
            count == self@.regions.len(),
    {
        self.regions.len()
    }
}

impl PartialEq for Operation {
    fn eq(&self, other: &Operation) -> (equal: bool) {
        self.raw == other.raw
    }
}

impl Eq for Operation {}

impl vstd::std_specs::cmp::PartialEqSpecImpl for Operation {
    open spec fn obeys_eq_spec() -> bool {
        true
    }

    open spec fn eq_spec(&self, other: &Operation) -> bool {
        self@.handle == other@.handle
    }
}

} // verus!
