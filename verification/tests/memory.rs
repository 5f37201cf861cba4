use exokernel::memory::frame_allocator::BootInfoFrameAllocator;
use exokernel::memory::heap::{
    init_heap, HeapSetup, HeapStep, HeapError, PageMapping, HEAP_PAGES, HEAP_PAGE_FLAGS,
    HEAP_SIZE, HEAP_START,
};
use exokernel::memory::{
    count_usable_frames, init, is_valid_memory_map, MemoryRegion, MemoryRegionKind, FRAME_SIZE,
};

fn usable(start: u64, end: u64) -> MemoryRegion {
    MemoryRegion { start, end, kind: MemoryRegionKind::Usable }
}

fn reserved(start: u64, end: u64) -> MemoryRegion {
    MemoryRegion { start, end, kind: MemoryRegionKind::Bootloader }
}

#[test]
fn frames_come_in_the_order_of_the_memory_map() {
    let map = vec![
        usable(0x1000, 0x4000),
        reserved(0x4000, 0x10000),
        usable(0x10000, 0x10000),
        MemoryRegion { start: 0x20000, end: 0x30000, kind: MemoryRegionKind::UnknownBios(3) },
        usable(0x100000, 0x102000),
    ];
    assert!(is_valid_memory_map(&map));
    let mut alloc = BootInfoFrameAllocator::new(map);
    let mut frames = Vec::new();
    while let Some(frame) = alloc.allocate_frame() {
        frames.push(frame);
    }
    assert_eq!(frames, vec![0x1000, 0x2000, 0x3000, 0x100000, 0x101000]);
    // The call that found no frame counts as well.
    assert_eq!(alloc.allocated_frames(), 6);
    // Once exhausted, it stays exhausted, and goes on counting.
    assert!(alloc.can_allocate());
    assert_eq!(alloc.allocate_frame(), None);
    assert_eq!(alloc.allocate_frame(), None);
    assert_eq!(alloc.allocated_frames(), 8);
    assert_eq!(alloc.usable_frame(0), Some(0x1000));
    assert_eq!(alloc.usable_frame(4), Some(0x101000));
    assert_eq!(alloc.usable_frame(5), None);
}

#[test]
fn frames_of_an_unaligned_region_lie_inside_it() {
    // A region that starts and ends off a frame boundary offers only the
    // frames that lie wholly inside it.
    let mut alloc = BootInfoFrameAllocator::new(vec![usable(0x1800, 0x3800)]);
    assert_eq!(alloc.allocate_frame(), Some(0x2000));
    assert_eq!(alloc.allocate_frame(), None);

    let map = vec![usable(0x1800, 0x4000), reserved(0x4000, 0x5000), usable(0x5001, 0x8fff)];
    assert!(is_valid_memory_map(&map));
    assert_eq!(count_usable_frames(&map), 4);
    let mut alloc = BootInfoFrameAllocator::new(map.clone());
    let mut frames = Vec::new();
    while let Some(frame) = alloc.allocate_frame() {
        frames.push(frame);
    }
    assert_eq!(frames, vec![0x2000, 0x3000, 0x6000, 0x7000]);
    for frame in frames {
        assert_eq!(frame % FRAME_SIZE, 0);
        assert!(map.iter().any(|r| r.kind == MemoryRegionKind::Usable
            && r.start <= frame
            && frame + FRAME_SIZE <= r.end));
    }
}

#[test]
fn frame_count_of_a_region() {
    assert_eq!(usable(0x1000, 0x4000).frame_count(), 3);
    assert_eq!(usable(0x1001, 0x4000).frame_count(), 2);
    assert_eq!(usable(0x1000, 0x3fff).frame_count(), 2);
    assert_eq!(usable(0x1fff, 0x3000).frame_count(), 1);
    assert_eq!(usable(0x1001, 0x1fff).frame_count(), 0);
    assert_eq!(usable(0x1001, 0x2fff).frame_count(), 0);
    assert_eq!(usable(0, 0).frame_count(), 0);
    assert_eq!(reserved(0x1000, 0x4000).frame_count(), 0);
    // Up to the end of the physical address space.
    assert_eq!(usable(0xf_ffff_ffff_f001, 0x10_0000_0000_0000).frame_count(), 0);
    assert_eq!(usable(0xf_ffff_ffff_f000, 0x10_0000_0000_0000).frame_count(), 1);
}

#[test]
fn every_allocation_advances_the_counter() {
    let mut alloc = BootInfoFrameAllocator::new(vec![usable(0x1000, 0x3000)]);
    assert_eq!(alloc.allocated_frames(), 0);
    assert_eq!(alloc.allocate_frame(), Some(0x1000));
    assert_eq!(alloc.allocated_frames(), 1);
    assert_eq!(alloc.allocate_frame(), Some(0x2000));
    assert_eq!(alloc.allocated_frames(), 2);
    assert_eq!(alloc.allocate_frame(), None);
    assert_eq!(alloc.allocated_frames(), 3);
    assert!(alloc.can_allocate());
}

#[test]
fn region_smaller_than_a_frame_offers_none() {
    let mut alloc = BootInfoFrameAllocator::new(vec![usable(0x1000, 0x1fff), reserved(0, 0x1000)]);
    assert_eq!(alloc.allocate_frame(), None);
    let mut empty = BootInfoFrameAllocator::new(Vec::new());
    assert_eq!(empty.allocate_frame(), None);
}

#[test]
fn memory_map_validity() {
    assert!(is_valid_memory_map(&Vec::new()));
    assert!(is_valid_memory_map(&vec![usable(0, 0x10_0000_0000_0000)]));
    // A usable region that ends before it starts.
    assert!(!is_valid_memory_map(&vec![usable(0x2000, 0x1000)]));
    // A usable region beyond the physical address space.
    assert!(!is_valid_memory_map(&vec![usable(0, 0x10_0000_0000_0001)]));
    // Regions that are not usable are not looked at.
    assert!(is_valid_memory_map(&vec![reserved(0x2000, 0x1000), reserved(0, u64::MAX)]));
}

#[test]
fn init_counts_usable_frames_and_mebibytes() {
    let map = vec![usable(0, 0x100000), reserved(0x100000, 0x200000), usable(0x200000, 0x8000000)];
    assert_eq!(count_usable_frames(&map), 256 + 32256);
    let start = init(map);
    assert_eq!(start.usable_frames, 32512);
    assert_eq!(start.usable_mib, 127);
    assert_eq!(start.usable_mib, start.usable_frames * 4096 / 1024 / 1024);
    assert_eq!(start.frame_allocator.allocated_frames(), 0);
    assert_eq!(start.heap.pages_mapped(), 0);
    assert!(!start.heap.is_done());

    let small = init(vec![usable(0x1000, 0x80000)]);
    assert_eq!(small.usable_frames, 127);
    assert_eq!(small.usable_mib, 0);
}

#[test]
fn heap_constants() {
    assert_eq!(HEAP_START, 0x4444_4444_0000);
    assert_eq!(HEAP_SIZE, 100 * 1024);
    assert_eq!(HEAP_PAGES, 25);
    assert_eq!(HEAP_PAGES * FRAME_SIZE, HEAP_SIZE as u64);
    assert_eq!(HEAP_PAGE_FLAGS, 3);
}

#[test]
fn heap_is_mapped_page_by_page() {
    let mut start = init(vec![reserved(0, 0x100000), usable(0x100000, 0x200000)]);
    let mut mappings = Vec::new();
    loop {
        match init_heap(&mut start.heap, &mut start.frame_allocator) {
            Ok(HeapStep::MapPage(mapping)) => mappings.push(mapping),
            Ok(HeapStep::InitAllocator { start: at, size }) => {
                assert_eq!(at, HEAP_START);
                assert_eq!(size, HEAP_SIZE);
                break;
            }
            other => panic!("unexpected step {:?}", other),
        }
    }
    assert_eq!(mappings.len(), 25);
    for (k, mapping) in mappings.iter().enumerate() {
        assert_eq!(
            *mapping,
            PageMapping {
                page: HEAP_START + 4096 * k as u64,
                frame: 0x100000 + 4096 * k as u64,
                flags: 3,
            }
        );
    }
    assert_eq!(start.heap.pages_mapped(), 25);
    assert!(start.heap.is_done());
    assert_eq!(start.frame_allocator.allocated_frames(), 25);
    // Nothing is left to do, and no further frame is taken.
    assert_eq!(init_heap(&mut start.heap, &mut start.frame_allocator), Ok(HeapStep::Done));
    assert_eq!(init_heap(&mut start.heap, &mut start.frame_allocator), Ok(HeapStep::Done));
    assert_eq!(start.frame_allocator.allocated_frames(), 25);
}

#[test]
fn heap_mapping_skips_frames_taken_in_between() {
    // The page tables of a mapping take frames from the same allocator.
    let mut frames = BootInfoFrameAllocator::new(vec![usable(0x100000, 0x200000)]);
    let mut heap = HeapSetup::new();
    let first = init_heap(&mut heap, &mut frames);
    assert_eq!(
        first,
        Ok(HeapStep::MapPage(PageMapping { page: HEAP_START, frame: 0x100000, flags: 3 }))
    );
    assert_eq!(frames.allocate_frame(), Some(0x101000));
    assert_eq!(frames.allocate_frame(), Some(0x102000));
    let second = init_heap(&mut heap, &mut frames);
    assert_eq!(
        second,
        Ok(HeapStep::MapPage(PageMapping { page: HEAP_START + 0x1000, frame: 0x103000, flags: 3 }))
    );
}

#[test]
fn heap_setup_fails_when_frames_run_out() {
    let mut frames = BootInfoFrameAllocator::new(vec![usable(0x100000, 0x103000)]);
    let mut heap = HeapSetup::new();
    for k in 0..3u64 {
        assert_eq!(
            init_heap(&mut heap, &mut frames),
            Ok(HeapStep::MapPage(PageMapping {
                page: HEAP_START + 4096 * k,
                frame: 0x100000 + 4096 * k,
                flags: 3
            }))
        );
    }
    assert_eq!(init_heap(&mut heap, &mut frames), Err(HeapError::FrameAllocationFailed));
    assert_eq!(init_heap(&mut heap, &mut frames), Err(HeapError::FrameAllocationFailed));
    assert_eq!(heap.pages_mapped(), 3);
    assert!(!heap.is_done());
    // Three frames were handed out, and two allocations failed.
    assert_eq!(frames.allocated_frames(), 5);

    let mut none = BootInfoFrameAllocator::new(Vec::new());
    let mut fresh = HeapSetup::new();
    assert_eq!(init_heap(&mut fresh, &mut none), Err(HeapError::FrameAllocationFailed));
    assert_eq!(fresh.pages_mapped(), 0);
}
