//! Placement of slot maps into the region: the region reserves the next
//! aligned extent of granted bytes for each map, the size of the map's layout,
//! and the cursor moves past it. The map records where its extent starts; its
//! keys and values are held in vectors of its own.

use vstd::prelude::*;

use crate::indexing::UnsignedType;
use crate::keyvector::{is_default, KeyVector};
use crate::wasm_allocator::{WasmAllocator, PAGE_SIZE};

verus! {

/// The pages a new core asks the host for.
pub const INITIAL_PAGES: usize = 2;

/// Why a slot map could not be placed.
#[derive(Clone, Copy, Debug, PartialEq, Eq, Structural)]
pub enum PlacementError {
    /// The capacity is zero.
    EmptyCapacity,
    /// The capacity needs slot references wider than the index width.
    CapacityExceedsIndexWidth,
    /// The region's cursor is not a multiple of the map's alignment.
    MisalignedPlacement,
    /// The region has fewer unused bytes than the map occupies.
    InsufficientCapacity,
}

/// Owns the region and places slot maps into it.
pub struct WebCore {
    wasm_allocator: WasmAllocator,
}

impl WebCore {
    /// The region.
    pub closed spec fn region(&self) -> WasmAllocator {
        self.wasm_allocator
    }

    /// The region is well formed.
    pub open spec fn wf(&self) -> bool {
        self.region().wf()
    }

    /// A core whose region starts past the `memory_pages` pages the process
    /// already holds. `grow_result` is the host's answer to the request for
    /// `INITIAL_PAGES` pages (the memory size in pages before the growth, or
    /// `usize::MAX` on refusal), and a grant is recorded.
    pub fn new(memory_pages: usize, grow_result: usize) -> (r: Self)
        requires
            memory_pages * PAGE_SIZE <= usize::MAX,
        ensures
            r.wf(),
            r.region().start() == memory_pages * PAGE_SIZE,
            r.region().cursor_at() == r.region().start(),
            r.region().granted() == if grow_result != usize::MAX && grow_result * PAGE_SIZE
                <= usize::MAX && memory_pages * PAGE_SIZE + INITIAL_PAGES * PAGE_SIZE
                <= usize::MAX {
                INITIAL_PAGES * PAGE_SIZE
            } else {
                0
            },
    {
        let mut wasm_allocator = WasmAllocator::new(memory_pages);
        let _ = wasm_allocator.internal_alloc(INITIAL_PAGES, grow_result);
        WebCore { wasm_allocator }
    }

    /// The region, for diagnostics and further growth.
    pub fn wasm_allocator(&self) -> (r: &WasmAllocator)
        ensures
            *r == self.region(),
    {
        &self.wasm_allocator
    }

    /// Records the host's answer to a request for `pages` more pages, as
    /// `WasmAllocator::internal_alloc` does.
    pub fn grow(&mut self, pages: usize, grow_result: usize) -> (r: Option<usize>)
        requires
            old(self).wf(),
        ensures
            final(self).wf(),
            old(self).region().grant_fits(pages as nat, grow_result as nat) ==> {
                &&& r == Some((grow_result * PAGE_SIZE) as usize)
                &&& final(self).region().granted() == old(self).region().granted() + pages
                    * PAGE_SIZE
                &&& final(self).region().start() == old(self).region().start()
                &&& final(self).region().cursor_at() == old(self).region().cursor_at()
            },
            !old(self).region().grant_fits(pages as nat, grow_result as nat) ==> {
                &&& r is None
                &&& *final(self) == *old(self)
            },
    {
        self.wasm_allocator.internal_alloc(pages, grow_result)
    }

    /// Places an empty slot map of capacity `N` at the region's cursor. The
    /// checks come in this order: the capacity is at least 1, it fits the index
    /// width, the cursor is a multiple of the map's alignment, and the region
    /// has at least the map's footprint in unused bytes. On success the region
    /// reserves the footprint, the map records the old cursor as its address
    /// and the cursor moves past the extent; on failure nothing changes.
    pub fn addkeyvec<T: Default, I: UnsignedType, const N: usize>(&mut self) -> (r: Result<
        KeyVector<T, I, N>,
        PlacementError,
    >)
        requires
            old(self).wf(),
        ensures
            final(self).wf(),
            N == 0 ==> r == Err::<KeyVector<T, I, N>, _>(PlacementError::EmptyCapacity),
            N >= 1 && N - 1 > I::max_value() ==> r == Err::<KeyVector<T, I, N>, _>(
                PlacementError::CapacityExceedsIndexWidth,
            ),
            KeyVector::<T, I, N>::valid_capacity() && old(self).region().cursor_at()
                % KeyVector::<T, I, N>::layout_align() != 0 ==> r == Err::<KeyVector<T, I, N>, _>(
                PlacementError::MisalignedPlacement,
            ),
            KeyVector::<T, I, N>::valid_capacity() && old(self).region().cursor_at()
                % KeyVector::<T, I, N>::layout_align() == 0 && old(self).region().unused()
                < KeyVector::<T, I, N>::layout_size() ==> r == Err::<KeyVector<T, I, N>, _>(
                PlacementError::InsufficientCapacity,
            ),
            r is Ok <==> {
                &&& KeyVector::<T, I, N>::valid_capacity()
                &&& old(self).region().cursor_at() % KeyVector::<T, I, N>::layout_align() == 0
                &&& KeyVector::<T, I, N>::layout_size() <= old(self).region().unused()
            },
            r matches Ok(m) ==> {
                &&& m.is_fresh()
                &&& is_default(m.sentinel())
                &&& m.placed_at() == old(self).region().cursor_at()
                &&& final(self).region().cursor_at() == old(self).region().cursor_at()
                    + KeyVector::<T, I, N>::layout_size()
                &&& final(self).region().start() == old(self).region().start()
                &&& final(self).region().granted() == old(self).region().granted()
            },
            r is Err ==> *final(self) == *old(self),
    {
        if N == 0 {
            return Err(PlacementError::EmptyCapacity);
        }
        if N - 1 > I::max_usize() {
            return Err(PlacementError::CapacityExceedsIndexWidth);
        }
        let align = KeyVector::<T, I, N>::alignment();
        if self.wasm_allocator.cursor() % align != 0 {
            return Err(PlacementError::MisalignedPlacement);
        }
        let size = match KeyVector::<T, I, N>::footprint() {
            Some(v) => v,
            None => return Err(PlacementError::InsufficientCapacity),
        };
        if self.wasm_allocator.unused_bytes() < size {
            return Err(PlacementError::InsufficientCapacity);
        }
        let address = self.wasm_allocator.advance(size);
        match KeyVector::<T, I, N>::new(address) {
            Ok(m) => Ok(m),
            Err(e) => {
                proof {
                    assert(false);
                }
                Err(e)
            },
        }
    }
}

} // verus!
