use vstd::prelude::*;

use crate::pte::ENTRY_COUNT;

verus! {

/// The contents of a table whose entries are all clear, as a fresh frame
/// from the allocator provides it.
pub open spec fn zero_table() -> Seq<u64> {
    Seq::new(512, |i: int| 0u64)
}

/// One page table: a fixed array of 512 entries, occupying exactly one
/// physical frame. The same shape serves all four levels of the hierarchy;
/// only the interpretation of the entries differs by level.
pub struct PageTable {
    entries: Vec<u64>,
}

impl View for PageTable {
    type V = Seq<u64>;

    closed spec fn view(&self) -> Seq<u64> {
        self.entries@
    }
}

impl PageTable {
    /// A table with every entry clear.
    pub fn new() -> (t: PageTable)
        ensures
            t@ == zero_table(),
    {
        let entries: Vec<u64> = vec![0u64; ENTRY_COUNT];
        proof {
            assert(entries@ =~= zero_table());
        }
        PageTable { entries }
    }

    /// Reads one entry.
    pub fn get(&self, idx: usize) -> (r: u64)
        requires
            idx < self@.len(),
        ensures
            r == self@[idx as int],
    {
        self.entries[idx]
    }

    /// Overwrites one entry.
    pub fn set_entry(&mut self, idx: usize, e: u64)
        requires
            idx < old(self)@.len(),
        ensures
            final(self)@ == old(self)@.update(idx as int, e),
    {
        self.entries[idx] = e;
    }
}

} // verus!
