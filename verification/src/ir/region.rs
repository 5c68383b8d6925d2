//! Regions.

use super::block::{Block, BlockView};
use super::handle::{BlockHandle, RegionHandle};
use crate::context::{Context, ContextView};
use crate::error::Error;
use vstd::prelude::*;

verus! {

/// What a region is, for contracts.
pub struct RegionView {
    pub handle: RegionHandle,
    pub owned: bool,
    pub blocks: Seq<BlockView>,
}

impl RegionView {
    /// Every block of the region is disowned and well formed.
    pub open spec fn wf(self) -> bool
        decreases self,
    {
        forall|i: int|
            0 <= i < self.blocks.len() ==> !(#[trigger] self.blocks[i]).owned
                && self.blocks[i].wf()
    }

    /// The same region, no longer owned by the caller.
    pub open spec fn disowned(self) -> RegionView {
        RegionView { owned: false, ..self }
    }

    /// The region as it is created: owned and without blocks.
    pub open spec fn fresh(handle: RegionHandle) -> RegionView {
        RegionView { handle, owned: true, blocks: Seq::empty() }
    }

    /// The same region with other blocks.
    pub open spec fn with_blocks(self, blocks: Seq<BlockView>) -> RegionView {
        RegionView { blocks, ..self }
    }

    /// `index` is the first position whose block has the given handle.
    pub open spec fn first_at(self, handle: BlockHandle, index: int) -> bool {
        &&& 0 <= index < self.blocks.len()
        &&& self.blocks[index].handle == handle
        &&& forall|j: int| 0 <= j < index ==> (#[trigger] self.blocks[j]).handle != handle
    }

    /// Some block of the region has the given handle.
    pub open spec fn has_member(self, handle: BlockHandle) -> bool {
        exists|i: int| 0 <= i < self.blocks.len() && (#[trigger] self.blocks[i]).handle == handle
    }
}

/// The blocks of a sequence, each as contracts see it.
pub open spec fn block_views(blocks: Seq<Block>) -> Seq<BlockView> {
    Seq::new(blocks.len(), |i: int| blocks[i]@)
}

/// A region: an ordered sequence of blocks.
#[derive(Debug)]
pub struct Region {
    pub(crate) raw: RegionHandle,
    pub(crate) owned: bool,
    pub(crate) blocks: Vec<Block>,
}

impl View for Region {
    type V = RegionView;

    open(crate) spec fn view(&self) -> RegionView
        decreases self,
    {
        RegionView {
            handle: self.raw,
            owned: self.owned,
            blocks: Seq::new(
                self.blocks@.len(),
                |i: int|
                    if 0 <= i < self.blocks@.len() {
                        self.blocks@[i]@
                    } else {
                        arbitrary()
                    },
            ),
        }
    }
}

impl Region {
    /// Creates an empty region that the caller owns. The region takes the
    /// context's next handle, so the context must have one left.
    pub fn new(context: &mut Context) -> (region: Region)
        requires
            old(context)@.next < u64::MAX,
        ensures
            region@ == RegionView::fresh(RegionHandle(old(context)@.next as u64)),
            final(context)@ == (ContextView { next: old(context)@.next + 1, ..old(context)@ }),
    {
        let raw = RegionHandle(context.allocate());
        let region = Region { raw, owned: true, blocks: Vec::new() };
        assert(region@.blocks =~= Seq::empty());
        region
    }

    /// Makes the region that has the given handle and blocks. The region
    /// holds the blocks: none of them belongs to the caller any longer.
    /// Whether the region itself does is as given.
    pub fn from_raw(raw: RegionHandle, owned: bool, blocks: Vec<Block>) -> (region: Region)
        ensures
            region@ == (RegionView {
                handle: raw,
                owned,
                blocks: block_views(blocks@).map_values(|b: BlockView| b.disowned()),
            }),
    {
        let mut members = blocks;
        let mut i: usize = 0;
        while i < members.len()
            invariant
                i <= members@.len(),
                members@.len() == blocks@.len(),
                forall|j: int| 0 <= j < i ==> (#[trigger] members@[j])@ == blocks@[j]@.disowned(),
                forall|j: int| i <= j < members@.len() ==> (#[trigger] members@[j]) == blocks@[j],
            decreases members@.len() - i,
        {
            members[i].owned = false;
            i += 1;
        }
        let region = Region { raw, owned, blocks: members };
        assert(region@.blocks =~= block_views(blocks@).map_values(|b: BlockView| b.disowned()));
        region
    }

    /// The region's handle.
    pub fn handle(&self) -> (handle: RegionHandle)
        ensures
            handle == self@.handle,
    {
        self.raw
    }

    /// Tells whether the caller still owns the region.
    pub fn is_owned(&self) -> (owned: bool)
        ensures
            owned == self@.owned,
    {
        self.owned
    }

    /// The number of blocks.
    pub fn block_count(&self) -> (count: usize)
        ensures
            count == self@.blocks.len(),
    {
        self.blocks.len()
    }

    /// The block at a position, if the region has that many.
    pub fn block(&self, position: usize) -> (found: Option<&Block>)
        ensures
            position >= self@.blocks.len() ==> found.is_none(),
            position < self@.blocks.len() ==> found.is_some() && found.unwrap()@
                == self@.blocks[position as int],
    {
        if position < self.blocks.len() {
            Some(&self.blocks[position])
        } else {
            None
        }
    }

    /// The first block, if there is one.
    pub fn first_block(&self) -> (found: Option<&Block>)
        ensures
            self@.blocks.len() == 0 ==> found.is_none(),
            self@.blocks.len() > 0 ==> found.is_some() && found.unwrap()@ == self@.blocks[0],
    {
        if self.blocks.len() > 0 {
            Some(&self.blocks[0])
        } else {
            None
        }
    }

    /// The last block, if there is one.
    pub fn last_block(&self) -> (found: Option<&Block>)
        ensures
            self@.blocks.len() == 0 ==> found.is_none(),
            self@.blocks.len() > 0 ==> found.is_some() && found.unwrap()@ == self@.blocks.last(),
    {
        let count = self.blocks.len();
        if count > 0 {
            Some(&self.blocks[count - 1])
        } else {
            None
        }
    }

    /// Tells whether every block of the region is held by it and no longer
    /// owned by the caller, and so on down the tree.
    pub fn verify(&self) -> (sound: bool)
        ensures
            sound == self@.wf(),
        decreases self,
    {
        let mut i: usize = 0;
        while i < self.blocks.len()
            invariant
                i <= self.blocks@.len(),
                forall|j: int|
                    0 <= j < i ==> !(#[trigger] self@.blocks[j]).owned && self@.blocks[j].wf(),
            decreases self.blocks@.len() - i,
        {
            if self.blocks[i].owned || !self.blocks[i].verify() {
                assert(self@.blocks[i as int].owned || !self@.blocks[i as int].wf());
                return false;
            }
            i += 1;
        }
        true
    }

    /// The first position whose block has the given handle.
    fn position_of(&self, handle: BlockHandle) -> (found: Option<usize>)
        ensures
            match found {
                Some(i) => self@.first_at(handle, i as int),
                None => !self@.has_member(handle),
            },
    {
        let mut i: usize = 0;
        while i < self.blocks.len()
            invariant
                i <= self.blocks@.len(),
                forall|j: int| 0 <= j < i ==> (#[trigger] self@.blocks[j]).handle != handle,
            decreases self.blocks@.len() - i,
        {
            if self.blocks[i].raw == handle {
                return Some(i);
            }
            i += 1;
        }
        None
    }

    /// The first member that has the given handle, if there is one.
    pub fn member(&self, handle: BlockHandle) -> (found: Option<&Block>)
        ensures
            !self@.has_member(handle) ==> found.is_none(),
            self@.has_member(handle) ==> found.is_some() && exists|i: int|
                self@.first_at(handle, i) && found.unwrap()@ == self@.blocks[i],
    {
        match self.position_of(handle) {
            Some(i) => Some(&self.blocks[i]),
            None => None,
        }
    }

    /// The first member that has the given handle, for changing it in
    /// place. What the caller leaves behind the reference takes the
    /// member's place; nothing else changes.
    pub fn member_mut(&mut self, handle: BlockHandle) -> (found: Option<&mut Block>)
        ensures
            !old(self)@.has_member(handle) ==> found.is_none() && final(self)@ == old(self)@,
            old(self)@.has_member(handle) ==> found.is_some() && exists|i: int|
                old(self)@.first_at(handle, i) && (*found.unwrap())@ == old(self)@.blocks[i]
                    && final(self)@ == old(self)@.with_blocks(
                    old(self)@.blocks.update(i, (*final(found.unwrap()))@),
                ),
    {
        match self.position_of(handle) {
            Some(i) => {
                proof {
                    assert forall|after: Region, block: Block|
                        after.raw == self.raw && after.owned == self.owned && after.blocks@
                            == self.blocks@.update(i as int, block) implies #[trigger] after@
                        == self@.with_blocks(self@.blocks.update(i as int, #[trigger] block@)) by {
                        assert(after@.blocks =~= self@.blocks.update(i as int, block@));
                    }
                }
                Some(&mut self.blocks[i])
            },
            None => None,
        }
    }

    /// Puts a block at a position and takes it over.
    fn insert_block(&mut self, position: usize, block: Block) -> (handle: BlockHandle)
        requires
            position <= old(self)@.blocks.len(),
        ensures
            handle == block@.handle,
            final(self)@ == old(self)@.with_blocks(
                old(self)@.blocks.insert(position as int, block@.disowned()),
            ),
    {
        let mut block = block;
        let handle = block.raw;
        block.owned = false;
        self.blocks.insert(position, block);
        assert(self@.blocks =~= old(self)@.blocks.insert(position as int, block@.disowned()));
        handle
    }

    /// Inserts a block directly behind the first member that has the
    /// reference handle. Without such a member the region stays as it is.
    pub fn insert_block_after(&mut self, reference: BlockHandle, block: Block) -> (result: Result<
        BlockHandle,
        Error,
    >)
        ensures
            old(self)@.has_member(reference) ==> result == Ok::<BlockHandle, Error>(block@.handle)
                && exists|i: int|
                old(self)@.first_at(reference, i) && final(self)@ == old(self)@.with_blocks(
                    old(self)@.blocks.insert(i + 1, block@.disowned()),
                ),
            !old(self)@.has_member(reference) ==> result == Err::<BlockHandle, Error>(
                Error::BlockNotFound,
            ) && final(self)@ == old(self)@,
    {
        match self.position_of(reference) {
            Some(i) => {
                let count = self.blocks.len();
                assert(i < count);
                let handle = self.insert_block(i + 1, block);
                Ok(handle)
            },
            None => Err(Error::BlockNotFound),
        }
    }

    /// Inserts a block directly before the first member that has the
    /// reference handle. Without such a member the region stays as it is.
    pub fn insert_block_before(&mut self, reference: BlockHandle, block: Block) -> (result: Result<
        BlockHandle,
        Error,
    >)
        ensures
            old(self)@.has_member(reference) ==> result == Ok::<BlockHandle, Error>(block@.handle)
                && exists|i: int|
                old(self)@.first_at(reference, i) && final(self)@ == old(self)@.with_blocks(
                    old(self)@.blocks.insert(i, block@.disowned()),
                ),
            !old(self)@.has_member(reference) ==> result == Err::<BlockHandle, Error>(
                Error::BlockNotFound,
            ) && final(self)@ == old(self)@,
    {
        match self.position_of(reference) {
            Some(i) => {
                let handle = self.insert_block(i, block);
                Ok(handle)
            },
            None => Err(Error::BlockNotFound),
        }
    }

    /// Appends a block. The region takes it over: it is no longer owned by
    /// the caller, and stands last.
    pub fn append_block(&mut self, block: Block) -> (handle: BlockHandle)
        ensures
            handle == block@.handle,
            final(self)@ == old(self)@.with_blocks(old(self)@.blocks.push(block@.disowned())),
    {
        let mut block = block;
        let handle = block.raw;
        block.owned = false;
        self.blocks.push(block);
        assert(self@.blocks =~= old(self)@.blocks.push(block@.disowned()));
        handle
    }
}

impl PartialEq for Region {
    fn eq(&self, other: &Region) -> (equal: bool) {
        self.raw == other.raw
    }
}

impl Eq for Region {}

impl vstd::std_specs::cmp::PartialEqSpecImpl for Region {
    open spec fn obeys_eq_spec() -> bool {
        true
    }

    open spec fn eq_spec(&self, other: &Region) -> bool {
        self@.handle == other@.handle
    }
}

} // verus!
