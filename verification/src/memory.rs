//! Memory blocks on the tape of cells, and the allocator that hands them out.

use vstd::prelude::*;

verus! {

/// A contiguous run of cells on the tape: the address of its first cell and
/// the number of cells it spans.
#[derive(Debug, Clone, Copy, PartialEq, Eq, Hash, Structural)]
pub struct MemoryBlock {
    pub position: usize,
    pub size: usize,
}

impl MemoryBlock {
    /// The block ends inside the address space, so that every one of its cells
    /// has an address.
    pub open spec fn wf(&self) -> bool {
        self.position + self.size <= usize::MAX
    }

    /// The address one past the last cell of the block.
    pub open spec fn end(&self) -> int {
        self.position + self.size
    }

    /// The address of the cell at `index`, counted from the start of the block.
    pub open spec fn cell(&self, index: int) -> int {
        self.position + index
    }

    /// The cell at the address is one of the block.
    pub open spec fn contains(&self, address: int) -> bool {
        self.position <= address < self.end()
    }

    /// The two blocks share no cell.
    pub open spec fn disjoint(&self, other: MemoryBlock) -> bool {
        forall|address: int| !(self.contains(address) && #[trigger] other.contains(address))
    }

    /// The block of `size` cells that starts at the address `position`.
    pub fn new(position: usize, size: usize) -> (block: MemoryBlock)
        ensures
            block == (MemoryBlock { position, size }),
    {
        MemoryBlock { position, size }
    }

    /// The address of the first cell.
    pub fn position(&self) -> (position: usize)
        ensures
            position == self.position,
    {
        self.position
    }

    /// The number of cells.
    pub fn size(&self) -> (size: usize)
        ensures
            size == self.size,
    {
        self.size
    }

    /// Whether the block ends inside the address space.
    pub fn is_wf(&self) -> (fits: bool)
        ensures
            fits == self.wf(),
    {
        self.size <= usize::MAX - self.position
    }

    /// The address of the cell at `index`. The index must lie inside the block.
    pub fn position_at(&self, index: usize) -> (address: usize)
        requires
            self.wf(),
            index < self.size,
        ensures
            address == self.cell(index as int),
    {
        self.position + index
    }
}

/// Hands out the cells of the tape front to back and never takes one back.
pub struct StaticAllocator {
    next: usize,
}

impl StaticAllocator {
    /// The number of cells handed out so far, which is also the address of the
    /// first cell that is still free.
    pub closed spec fn watermark(&self) -> nat {
        self.next as nat
    }

    /// An allocator that has handed out nothing yet.
    pub fn new() -> (allocator: StaticAllocator)
        ensures
            allocator.watermark() == 0,
    {
        StaticAllocator { next: 0 }
    }

    /// The number of cells handed out so far.
    pub fn allocated(&self) -> (cells: usize)
        ensures
            cells == self.watermark(),
    {
        self.next
    }

    /// Reserves `size` cells. The block starts where the last one ended, so it
    /// shares no cell with any block handed out before.
    pub fn allocate(&mut self, size: usize) -> (block: MemoryBlock)
        requires
            old(self).watermark() + size <= usize::MAX,
        ensures
            block.position == old(self).watermark(),
            block.size == size,
            final(self).watermark() == old(self).watermark() + size,
    {
        let block = MemoryBlock { position: self.next, size };
        self.next = self.next + size;
        block
    }
}

} // verus!
