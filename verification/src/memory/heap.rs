//! Kernel heap set-up.
//!
//! The heap is a fixed range of virtual memory. Each of its pages is mapped
//! to a frame of its own, present and writable; after that the heap
//! allocator is initialised over the range. This module decides the
//! mappings one at a time; installing a mapping in the page tables and
//! initialising the allocator is the caller's part.

use crate::memory::frame_allocator::{frame_at, BootInfoFrameAllocator};
use crate::memory::FRAME_SIZE;
use vstd::prelude::*;

verus! {

/// Start address of the kernel heap (chosen to be in a high, unused region).
pub const HEAP_START: u64 = 0x4444_4444_0000;

/// Size of the kernel heap in bytes (100 KiB).
pub const HEAP_SIZE: usize = 100 * 1024;

/// Number of pages of the kernel heap.
pub const HEAP_PAGES: u64 = 25;

/// Page table flags of a heap page: present (bit 0) and writable (bit 1).
pub const HEAP_PAGE_FLAGS: u64 = 0b11;

/// Why the heap cannot be set up.
#[derive(Debug, Clone, Copy, PartialEq, Eq, Structural)]
pub enum HeapError {
    /// No usable frame is left for a page of the heap.
    FrameAllocationFailed,
}

/// One page of the heap and the frame it is to be mapped to.
#[derive(Debug, Clone, Copy, PartialEq, Eq, Structural)]
pub struct PageMapping {
    /// Start address of the virtual page.
    pub page: u64,
    /// Start address of the physical frame.
    pub frame: u64,
    /// Page table flags of the mapping.
    pub flags: u64,
}

/// What the caller has to do next to set up the heap.
#[derive(Debug, Clone, Copy, PartialEq, Eq, Structural)]
pub enum HeapStep {
    /// Install this mapping in the active page tables, and flush it.
    MapPage(PageMapping),
    /// All pages are mapped: initialise the heap allocator over the range.
    InitAllocator { start: u64, size: usize },
    /// Nothing is left to do.
    Done,
}

/// Start address of the page that contains the virtual address `addr`.
pub open spec fn page_start(addr: int) -> int {
    addr - addr % (FRAME_SIZE as int)
}

/// Start address of the `k`-th page of the heap.
pub open spec fn heap_page(k: int) -> int {
    HEAP_START + k * FRAME_SIZE
}

/// Start address of the page that contains a virtual address.
///
/// Calls `x86_64::structures::paging::Page::containing_address` on the
/// address, which aligns it down to the page size of 4 KiB. The address
/// goes in through `x86_64::VirtAddr::new`, which panics on an address
/// that is not canonical: only addresses of the lower half, below 2^47,
/// are admitted.
#[verifier::external_body]
fn page_containing(addr: u64) -> (start: u64)
    requires
        addr < 0x8000_0000_0000,
    ensures
        start == page_start(addr as int),
{
    let addr = x86_64::VirtAddr::new(addr);
    let page = x86_64::structures::paging::Page::<
        x86_64::structures::paging::Size4KiB,
    >::containing_address(addr);
    page.start_address().as_u64()
}

/// The page table flags PRESENT and WRITABLE together, as bits.
///
/// Takes the two constants of `x86_64::structures::paging::PageTableFlags`
/// and their union's `bits()`: bit 0 and bit 1.
#[verifier::external_body]
fn present_and_writable() -> (flags: u64)
    ensures
        flags == HEAP_PAGE_FLAGS,
{
    let present = x86_64::structures::paging::PageTableFlags::PRESENT;
    let writable = x86_64::structures::paging::PageTableFlags::WRITABLE;
    (present | writable).bits()
}

/// Progress of the heap set-up.
pub struct HeapSetup {
    mapped: u64,
    allocator_ready: bool,
}

impl HeapSetup {
    /// Number of heap pages for which a mapping has been handed out.
    pub closed spec fn mapped(&self) -> nat {
        self.mapped as nat
    }

    /// Whether the caller has been told to initialise the allocator.
    pub closed spec fn allocator_ready(&self) -> bool {
        self.allocator_ready
    }

    /// No more pages are mapped than the heap has, and the allocator is
    /// initialised only after all are.
    pub open spec fn wf(&self) -> bool {
        &&& self.mapped() <= HEAP_PAGES
        &&& self.allocator_ready() ==> self.mapped() == HEAP_PAGES
    }

    /// A set-up that has mapped nothing yet.
    pub fn new() -> (setup: HeapSetup)
        ensures
            setup.mapped() == 0,
            !setup.allocator_ready(),
            setup.wf(),
    {
        HeapSetup { mapped: 0, allocator_ready: false }
    }

    /// Number of heap pages for which a mapping has been handed out.
    pub fn pages_mapped(&self) -> (n: u64)
        ensures
            n == self.mapped(),
    {
        self.mapped
    }

    /// Whether the heap is set up completely.
    pub fn is_done(&self) -> (done: bool)
        ensures
            done == self.allocator_ready(),
    {
        self.allocator_ready
    }
}

/// Initialize the kernel heap, one decision at a time.
///
/// While pages of the heap are unmapped, the next page in ascending order
/// is paired with the next frame of the allocator; if no frame is left,
/// the answer is `FrameAllocationFailed`, and nothing changes but the
/// allocator's count of allocations. When all pages are mapped, the caller
/// is told once to initialise the allocator over the heap range. After
/// that nothing is left to do.
pub fn init_heap(setup: &mut HeapSetup, frame_allocator: &mut BootInfoFrameAllocator) -> (res:
    Result<HeapStep, HeapError>)
    requires
        old(setup).wf(),
        old(frame_allocator).wf(),
        old(setup).mapped() < HEAP_PAGES ==> old(frame_allocator).has_room(),
    ensures
        final(setup).wf(),
        final(frame_allocator).wf(),
        final(frame_allocator).regions() == old(frame_allocator).regions(),
        old(setup).mapped() < HEAP_PAGES ==> match frame_at(
            old(frame_allocator).regions(),
            old(frame_allocator).allocated(),
        ) {
            Some(frame) => {
                &&& res == Ok::<HeapStep, HeapError>(
                    HeapStep::MapPage(
                        PageMapping {
                            page: heap_page(old(setup).mapped() as int) as u64,
                            frame,
                            flags: HEAP_PAGE_FLAGS,
                        },
                    ),
                )
                &&& final(setup).mapped() == old(setup).mapped() + 1
                &&& !final(setup).allocator_ready()
                &&& final(frame_allocator).allocated() == old(frame_allocator).allocated() + 1
            },
            None => {
                &&& res == Err::<HeapStep, HeapError>(HeapError::FrameAllocationFailed)
                &&& final(setup).mapped() == old(setup).mapped()
                &&& !final(setup).allocator_ready()
                &&& final(frame_allocator).allocated() == old(frame_allocator).allocated() + 1
            },
        },
        old(setup).mapped() == HEAP_PAGES ==> {
            &&& res == Ok::<HeapStep, HeapError>(
                if old(setup).allocator_ready() {
                    HeapStep::Done
                } else {
                    HeapStep::InitAllocator { start: HEAP_START, size: HEAP_SIZE }
                },
            )
            &&& final(setup).mapped() == old(setup).mapped()
            &&& final(setup).allocator_ready()
            &&& final(frame_allocator).allocated() == old(frame_allocator).allocated()
        },
{
    let first: u64 = page_containing(HEAP_START);
    let last: u64 = page_containing(HEAP_START + HEAP_SIZE as u64 - 1);
    assert(first == HEAP_START);
    assert(last == heap_page(HEAP_PAGES - 1));
    let page: u64 = first + setup.mapped * FRAME_SIZE;
    if page <= last {
        match frame_allocator.allocate_frame() {
            Some(frame) => {
                setup.mapped = setup.mapped + 1;
                Ok(HeapStep::MapPage(PageMapping { page, frame, flags: present_and_writable() }))
            },
            None => Err(HeapError::FrameAllocationFailed),
        }
    } else if setup.allocator_ready {
        Ok(HeapStep::Done)
    } else {
        setup.allocator_ready = true;
        Ok(HeapStep::InitAllocator { start: HEAP_START, size: HEAP_SIZE })
    }
}

} // verus!
