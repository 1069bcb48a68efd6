use keyvector::keyvector::KeyVector;
use keyvector::wasm_allocator::{WasmAllocator, PAGE_SIZE};
use keyvector::web_core::{PlacementError, WebCore, INITIAL_PAGES};

const HUGE: usize = usize::MAX / 4;
const EXACT: usize = 10922;
const EXACT_PLUS_ONE: usize = 10923;

#[test]
fn allocator_starts_past_existing_memory() {
    let a = WasmAllocator::new(17);
    assert_eq!(a.memory_size(), 17 * PAGE_SIZE);
    assert_eq!(a.cursor(), 17 * PAGE_SIZE);
    assert_eq!(a.debug_allocation_size(), 0);
    assert_eq!(a.unused_bytes(), 0);
}

#[test]
fn grow_records_granted_pages() {
    let mut a = WasmAllocator::new(17);
    assert_eq!(a.internal_alloc(3, 17), Some(17 * PAGE_SIZE));
    assert_eq!(a.debug_allocation_size(), 3 * PAGE_SIZE);
    assert_eq!(a.unused_bytes(), 3 * PAGE_SIZE);
    assert_eq!(a.internal_alloc(1, 20), Some(20 * PAGE_SIZE));
    assert_eq!(a.debug_allocation_size(), 4 * PAGE_SIZE);
    assert_eq!(a.cursor(), 17 * PAGE_SIZE);
}

#[test]
fn refused_grow_changes_nothing() {
    let mut a = WasmAllocator::new(17);
    assert_eq!(a.internal_alloc(3, usize::MAX), None);
    assert_eq!(a.debug_allocation_size(), 0);
    assert_eq!(a.internal_alloc(usize::MAX, 17), None);
    assert_eq!(a.debug_allocation_size(), 0);
}

#[test]
fn advance_hands_out_consecutive_extents() {
    let mut a = WasmAllocator::new(1);
    a.internal_alloc(1, 1);
    assert_eq!(a.advance(100), PAGE_SIZE);
    assert_eq!(a.advance(28), PAGE_SIZE + 100);
    assert_eq!(a.cursor(), PAGE_SIZE + 128);
    assert_eq!(a.unused_bytes(), PAGE_SIZE - 128);
}

#[test]
fn core_grows_initial_pages() {
    let core = WebCore::new(17, 17);
    assert_eq!(core.wasm_allocator().debug_allocation_size(), INITIAL_PAGES * PAGE_SIZE);
    let refused = WebCore::new(17, usize::MAX);
    assert_eq!(refused.wasm_allocator().debug_allocation_size(), 0);
}

fn expected_footprint(n: usize, index_size: usize, index_align: usize, value_size: usize, value_align: usize) -> usize {
    let up = |x: usize, a: usize| (x + a - 1) / a * a;
    let word = std::mem::size_of::<usize>();
    let align = std::mem::align_of::<usize>().max(index_align).max(value_align);
    let indices_at = up(word, index_align);
    let data_at = up(indices_at + n * index_size, value_align);
    up(data_at + n * value_size, align)
}

#[test]
fn footprint_matches_layout() {
    let f = KeyVector::<u64, u16, 4000>::footprint().unwrap();
    assert_eq!(f, expected_footprint(4000, 2, 2, 8, 8));
    assert_eq!(KeyVector::<u8, u8, 3>::footprint().unwrap(), expected_footprint(3, 1, 1, 1, 1));
    assert_eq!(KeyVector::<u8, u8, 3>::alignment(), std::mem::align_of::<usize>());
    assert_eq!(KeyVector::<u128, u32, 5>::alignment(), std::mem::align_of::<u128>().max(std::mem::align_of::<usize>()));
    assert!(KeyVector::<u64, u32, HUGE>::footprint().is_none());
}

#[test]
fn placement_advances_cursor_by_footprint() {
    let mut core = WebCore::new(17, 17);
    let start = core.wasm_allocator().cursor();
    let mut m = core.addkeyvec::<u64, u16, 4000>().unwrap();
    assert_eq!(m.address(), start);
    let f = KeyVector::<u64, u16, 4000>::footprint().unwrap();
    assert_eq!(core.wasm_allocator().cursor(), start + f);
    assert_eq!(m.length(), 0);
    for k in 1..4000usize {
        assert_eq!(*m.find(k), 0);
    }
    m.add(1);
    assert_eq!(m.length(), 1);
    let second = core.addkeyvec::<u32, u8, 100>().unwrap();
    assert_eq!(second.length(), 0);
    assert_eq!(second.address(), start + f);
    assert_eq!(
        core.wasm_allocator().cursor(),
        start + f + KeyVector::<u32, u8, 100>::footprint().unwrap()
    );
}

#[test]
fn placement_errors_in_order() {
    let mut core = WebCore::new(17, 17);
    let cursor = core.wasm_allocator().cursor();
    assert!(matches!(core.addkeyvec::<u64, u8, 0>(), Err(PlacementError::EmptyCapacity)));
    assert!(matches!(
        core.addkeyvec::<u64, u8, 300>(),
        Err(PlacementError::CapacityExceedsIndexWidth)
    ));
    // Needs more than the two granted pages.
    assert!(matches!(
        core.addkeyvec::<u64, u32, 20000>(),
        Err(PlacementError::InsufficientCapacity)
    ));
    assert_eq!(core.wasm_allocator().cursor(), cursor);
}

#[test]
fn placement_fails_when_nothing_granted() {
    let mut core = WebCore::new(17, usize::MAX);
    assert!(matches!(core.addkeyvec::<u8, u8, 2>(), Err(PlacementError::InsufficientCapacity)));
    assert_eq!(core.grow(1, 17), Some(17 * PAGE_SIZE));
    assert!(core.addkeyvec::<u8, u8, 2>().is_ok());
}

#[test]
fn placement_exactly_fills_region() {
    // An 8-byte word, 10922 four-byte indices and 10922 eight-byte values fill two pages.
    assert_eq!(KeyVector::<u64, u32, EXACT>::footprint(), Some(2 * PAGE_SIZE));
    let mut core = WebCore::new(17, 17);
    assert!(matches!(
        core.addkeyvec::<u64, u32, EXACT_PLUS_ONE>(),
        Err(PlacementError::InsufficientCapacity)
    ));
    let placed = core.addkeyvec::<u64, u32, EXACT>();
    assert!(placed.is_ok());
    assert_eq!(core.wasm_allocator().unused_bytes(), 0);
    assert!(matches!(core.addkeyvec::<u8, u8, 1>(), Err(PlacementError::InsufficientCapacity)));
}

#[test]
fn misaligned_cursor_is_refused() {
    let mut core = WebCore::new(17, 17);
    // A 24-byte map leaves the cursor 8 bytes past a 16-byte boundary.
    let _ = core.addkeyvec::<u8, u8, 5>().unwrap();
    let cursor = core.wasm_allocator().cursor();
    if std::mem::align_of::<u128>() > std::mem::align_of::<usize>() && cursor % std::mem::align_of::<u128>() != 0 {
        assert!(matches!(core.addkeyvec::<u128, u8, 4>(), Err(PlacementError::MisalignedPlacement)));
        assert_eq!(core.wasm_allocator().cursor(), cursor);
    }
}
