//! A bump region over the guest's linear memory: it grows by whole pages and
//! never gives bytes back.

use vstd::prelude::*;

verus! {

/// The size in bytes of one page of linear memory.
pub const PAGE_SIZE: usize = 65536;

/// Bookkeeping for the bytes the host has granted to this region.
///
/// The region starts at `lead_ptr`, past the memory the process held before
/// the region existed. `allocation_size` bytes have been granted since, and
/// `tracking_ptr` is where the next placement begins.
pub struct WasmAllocator {
    lead_ptr: usize,
    tracking_ptr: usize,
    allocation_size: usize,
}

impl WasmAllocator {
    /// The start of the region.
    pub closed spec fn start(&self) -> nat {
        self.lead_ptr as nat
    }

    /// Where the next placement begins.
    pub closed spec fn cursor_at(&self) -> nat {
        self.tracking_ptr as nat
    }

    /// The bytes granted to the region.
    pub closed spec fn granted(&self) -> nat {
        self.allocation_size as nat
    }

    /// The granted bytes not yet handed out.
    pub open spec fn unused(&self) -> int {
        self.start() + self.granted() - self.cursor_at()
    }

    /// The cursor lies within the granted bytes, which lie within the address space.
    pub open spec fn wf(&self) -> bool {
        &&& self.start() <= self.cursor_at()
        &&& self.cursor_at() <= self.start() + self.granted()
        &&& self.start() + self.granted() <= usize::MAX
    }

    /// Whether the host's answer `grow_result` to a request for `pages` pages
    /// is a grant the region can record: the host did not refuse (`usize::MAX`),
    /// and the new extent and the region's end are addresses.
    pub open spec fn grant_fits(&self, pages: nat, grow_result: nat) -> bool {
        &&& grow_result != usize::MAX
        &&& grow_result * PAGE_SIZE <= usize::MAX
        &&& self.start() + self.granted() + pages * PAGE_SIZE <= usize::MAX
    }

    /// A region past the `memory_pages` pages the process already holds, with
    /// nothing granted yet.
    pub fn new(memory_pages: usize) -> (r: Self)
        requires
            memory_pages * PAGE_SIZE <= usize::MAX,
        ensures
            r.wf(),
            r.start() == memory_pages * PAGE_SIZE,
            r.cursor_at() == r.start(),
            r.granted() == 0,
    {
        let allocated_start_pointer: usize = memory_pages * PAGE_SIZE;
        WasmAllocator {
            lead_ptr: allocated_start_pointer,
            tracking_ptr: allocated_start_pointer,
            allocation_size: 0,
        }
    }

    /// The memory size, in bytes, that the process held when the region was
    /// made; the region starts there.
    pub fn memory_size(&self) -> (r: usize)
        ensures
            r as nat == self.start(),
    {
        self.lead_ptr
    }

    /// The bytes granted to the region so far.
    pub fn debug_allocation_size(&self) -> (r: usize)
        ensures
            r as nat == self.granted(),
    {
        self.allocation_size
    }

    /// Where the next placement begins.
    pub fn cursor(&self) -> (r: usize)
        ensures
            r as nat == self.cursor_at(),
    {
        self.tracking_ptr
    }

    /// The granted bytes not yet handed out.
    pub fn unused_bytes(&self) -> (r: usize)
        requires
            self.wf(),
        ensures
            r as int == self.unused(),
    {
        self.lead_ptr + self.allocation_size - self.tracking_ptr
    }

    /// Records the host's answer to a request for `pages` more pages:
    /// `grow_result` is the memory size in pages before the growth, or
    /// `usize::MAX` when the host refused. On a grant the region counts the
    /// new bytes and the start of the new extent is returned; otherwise
    /// nothing changes.
    pub fn internal_alloc(&mut self, pages: usize, grow_result: usize) -> (r: Option<usize>)
        requires
            old(self).wf(),
        ensures
            final(self).wf(),
            old(self).grant_fits(pages as nat, grow_result as nat) ==> {
                &&& r == Some((grow_result * PAGE_SIZE) as usize)
                &&& final(self).granted() == old(self).granted() + pages * PAGE_SIZE
                &&& final(self).start() == old(self).start()
                &&& final(self).cursor_at() == old(self).cursor_at()
            },
            !old(self).grant_fits(pages as nat, grow_result as nat) ==> {
                &&& r is None
                &&& *final(self) == *old(self)
            },
    {
        if grow_result == usize::MAX {
            return None;
        }
        let start = match grow_result.checked_mul(PAGE_SIZE) {
            Some(v) => v,
            None => return None,
        };
        let bytes = match pages.checked_mul(PAGE_SIZE) {
            Some(v) => v,
            None => return None,
        };
        if bytes > usize::MAX - self.lead_ptr - self.allocation_size {
            return None;
        }
        self.allocation_size += bytes;
        Some(start)
    }

    /// Hands out the next `size` unused bytes and returns where they begin.
    pub fn advance(&mut self, size: usize) -> (r: usize)
        requires
            old(self).wf(),
            size <= old(self).unused(),
        ensures
            final(self).wf(),
            r as nat == old(self).cursor_at(),
            final(self).cursor_at() == old(self).cursor_at() + size,
            final(self).start() == old(self).start(),
            final(self).granted() == old(self).granted(),
    {
        let at = self.tracking_ptr;
        self.tracking_ptr = self.tracking_ptr + size;
        at
    }
}

} // verus!
