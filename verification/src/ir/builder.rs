//! Operation builders.

use super::handle::{BlockHandle, OperationHandle};
use super::identifier::Identifier;
use super::location::{Location, LocationView};
use super::named_attribute::{attribute_views, NamedAttribute, NamedAttributeView};
use super::operation::{Operation, OperationView};
use super::region::{Region, RegionView};
use super::types::Type;
use super::value::Value;
use crate::context::{Context, ContextView};
use vstd::prelude::*;

verus! {

/// What a builder has gathered, for contracts.
pub struct BuilderView {
    pub name: Seq<char>,
    pub location: LocationView,
    pub operands: Seq<Value>,
    pub results: Seq<Type>,
    pub attributes: Seq<NamedAttributeView>,
    pub successors: Seq<BlockHandle>,
    pub regions: Seq<RegionView>,
}

impl BuilderView {
    /// The operation that is built from what was gathered: owned by the
    /// caller, with every region taken over.
    pub open spec fn operation(self, handle: OperationHandle) -> OperationView {
        OperationView {
            handle,
            owned: true,
            name: self.name,
            location: self.location,
            operands: self.operands,
            results: self.results,
            attributes: self.attributes,
            successors: self.successors,
            regions: self.regions.map_values(|r: RegionView| r.disowned()),
        }
    }
}

/// Gathers the parts of an operation. Nothing is checked while gathering or
/// building.
#[derive(Debug)]
pub struct Builder {
    pub(crate) name: Identifier,
    pub(crate) location: Location,
    pub(crate) operands: Vec<Value>,
    pub(crate) results: Vec<Type>,
    pub(crate) attributes: Vec<NamedAttribute>,
    pub(crate) successors: Vec<BlockHandle>,
    pub(crate) regions: Vec<Region>,
}

impl View for Builder {
    type V = BuilderView;

    open(crate) spec fn view(&self) -> BuilderView {
        BuilderView {
            name: self.name@,
            location: self.location@,
            operands: self.operands@,
            results: self.results@,
            attributes: attribute_views(self.attributes@),
            successors: self.successors@,
            regions: self.regions@.map_values(|r: Region| r@),
        }
    }
}

impl Builder {
    /// Starts an operation of the given name at the given location.
    pub fn new(name: &str, location: Location) -> (builder: Builder)
        ensures
            builder@ == (BuilderView {
                name: name@,
                location: location@,
                operands: Seq::empty(),
                results: Seq::empty(),
                attributes: Seq::empty(),
                successors: Seq::empty(),
                regions: Seq::empty(),
            }),
    {
        let builder = Builder {
            name: Identifier::new(name),
            location,
            operands: Vec::new(),
            results: Vec::new(),
            attributes: Vec::new(),
            successors: Vec::new(),
            regions: Vec::new(),
        };
        assert(builder@.attributes =~= Seq::empty());
        assert(builder@.regions =~= Seq::empty());
        builder
    }

    /// Adds operands behind those gathered so far.
    pub fn add_operands(self, operands: &[Value]) -> (builder: Builder)
        ensures
            builder@ == (BuilderView { operands: self@.operands + operands@, ..self@ }),
    {
        let mut builder = self;
        let mut i: usize = 0;
        while i < operands.len()
            invariant
                i <= operands@.len(),
                builder@ == (BuilderView {
                    operands: self@.operands + operands@.take(i as int),
                    ..self@
                }),
            decreases operands@.len() - i,
        {
            builder.operands.push(operands[i]);
            assert(operands@.take(i + 1) =~= operands@.take(i as int).push(operands@[i as int]));
            assert(builder@.operands =~= self@.operands + operands@.take(i + 1));
            i += 1;
        }
        assert(operands@.take(i as int) =~= operands@);
        builder
    }

    /// Adds result types behind those gathered so far.
    pub fn add_results(self, results: &[Type]) -> (builder: Builder)
        ensures
            builder@ == (BuilderView { results: self@.results + results@, ..self@ }),
    {
        let mut builder = self;
        let mut i: usize = 0;
        while i < results.len()
            invariant
                i <= results@.len(),
                builder@ == (BuilderView {
                    results: self@.results + results@.take(i as int),
                    ..self@
                }),
            decreases results@.len() - i,
        {
            builder.results.push(results[i]);
            assert(results@.take(i + 1) =~= results@.take(i as int).push(results@[i as int]));
            assert(builder@.results =~= self@.results + results@.take(i + 1));
            i += 1;
        }
        assert(results@.take(i as int) =~= results@);
        builder
    }

    /// Adds attributes behind those gathered so far. A name may occur more
    /// than once: all occurrences are kept, in order.
    pub fn add_attributes(self, attributes: &[NamedAttribute]) -> (builder: Builder)
        ensures
            builder@ == (BuilderView {
                attributes: self@.attributes + attribute_views(attributes@),
                ..self@
            }),
    {
        let mut builder = self;
        let mut i: usize = 0;
        while i < attributes.len()
            invariant
                i <= attributes@.len(),
                builder@ == (BuilderView {
                    attributes: self@.attributes + attribute_views(attributes@.take(i as int)),
                    ..self@
                }),
            decreases attributes@.len() - i,
        {
            let ghost before = builder@.attributes;
            let ghost held = builder.attributes@;
            let copy = attributes[i].clone();
            builder.attributes.push(copy);
            assert(builder.attributes@ == held.push(copy));
            assert(attribute_views(held) == before);
            assert(attribute_views(held.push(copy)) =~= before.push(copy@));
            assert(attribute_views(attributes@.take(i + 1)) =~= attribute_views(
                attributes@.take(i as int),
            ).push(attributes@[i as int]@));
            assert(builder@.attributes =~= self@.attributes + attribute_views(
                attributes@.take(i + 1),
            ));
            i += 1;
        }
        assert(attributes@.take(i as int) =~= attributes@);
        builder
    }

    /// Adds successor blocks behind those gathered so far.
    pub fn add_successors(self, successors: &[BlockHandle]) -> (builder: Builder)
        ensures
            builder@ == (BuilderView { successors: self@.successors + successors@, ..self@ }),
    {
        let mut builder = self;
        let mut i: usize = 0;
        while i < successors.len()
            invariant
                i <= successors@.len(),
                builder@ == (BuilderView {
                    successors: self@.successors + successors@.take(i as int),
                    ..self@
                }),
            decreases successors@.len() - i,
        {
            builder.successors.push(successors[i]);
            assert(successors@.take(i + 1) =~= successors@.take(i as int).push(
                successors@[i as int],
            ));
            assert(builder@.successors =~= self@.successors + successors@.take(i + 1));
            i += 1;
        }
        assert(successors@.take(i as int) =~= successors@);
        builder
    }

    /// Adds regions behind those gathered so far. The builder holds them
    /// until the operation is built.
    pub fn add_regions(self, regions: Vec<Region>) -> (builder: Builder)
        ensures
            builder@ == (BuilderView {
                regions: self@.regions + regions@.map_values(|r: Region| r@),
                ..self@
            }),
    {
        let mut builder = self;
        let mut added = regions;
        builder.regions.append(&mut added);
        assert(builder@.regions =~= self@.regions + regions@.map_values(|r: Region| r@));
        builder
    }

    /// Builds the operation. It takes the context's next handle, so the
    /// context must have one left, and belongs to the caller; the regions
    /// gathered now belong to it.
    pub fn build(self, context: &mut Context) -> (operation: Operation)
        requires
            old(context)@.next < u64::MAX,
        ensures
            operation@ == self@.operation(OperationHandle(old(context)@.next as u64)),
            final(context)@ == (ContextView { next: old(context)@.next + 1, ..old(context)@ }),
    {
        let raw = OperationHandle(context.allocate());
        Operation::from_raw(raw, true, self)
    }
}

} // verus!
