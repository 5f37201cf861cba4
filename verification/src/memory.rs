//! Memory bring-up: the physical frame allocator over the boot memory map
//! and the plan for mapping the kernel heap.
//!
//! The page tables themselves and the heap allocator are hardware and
//! allocator state outside this library. What is decided here: which
//! frames exist, which frame is handed out next, and which page is mapped
//! to which frame with which flags.

pub mod frame_allocator;
pub mod heap;

use crate::memory::frame_allocator::BootInfoFrameAllocator;
use crate::memory::heap::HeapSetup;
use vstd::prelude::*;

verus! {

/// Size of a physical frame and of a virtual page, in bytes.
pub const FRAME_SIZE: u64 = 4096;

/// First address that is no physical address: physical addresses have 52
/// bits.
pub const PHYS_ADDR_LIMIT: u64 = 0x10_0000_0000_0000;

/// What a region of the boot memory map is used for.
#[derive(Debug, Clone, Copy, PartialEq, Eq, Structural)]
pub enum MemoryRegionKind {
    /// Unused conventional memory, free for the kernel.
    Usable,
    /// Memory that the bootloader has handed to the kernel image, the page
    /// tables or the boot information.
    Bootloader,
    /// A memory type of the UEFI memory map that is not known.
    UnknownUefi(u32),
    /// A memory type of the BIOS memory map that is not known.
    UnknownBios(u32),
}

/// A region of physical memory, from `start` up to but without `end`.
#[derive(Debug, Clone, Copy, PartialEq, Eq, Structural)]
pub struct MemoryRegion {
    pub start: u64,
    pub end: u64,
    pub kind: MemoryRegionKind,
}

impl MemoryRegion {
    /// The first frame boundary at or after the start of the region.
    pub open spec fn first_frame(self) -> int {
        if self.start % FRAME_SIZE == 0 {
            self.start as int
        } else {
            self.start - self.start % FRAME_SIZE + FRAME_SIZE
        }
    }

    /// Number of frames that lie wholly inside the region, if it is usable:
    /// those that begin at a frame boundary at or after `start` and end at
    /// or before `end`. A region that is not usable offers none.
    pub open spec fn frames(self) -> nat {
        if self.kind == MemoryRegionKind::Usable && self.first_frame() <= self.end {
            ((self.end - self.first_frame()) / FRAME_SIZE as int) as nat
        } else {
            0
        }
    }

    /// A usable region ends at or after its start, and within the physical
    /// address space.
    pub open spec fn valid(self) -> bool {
        self.kind == MemoryRegionKind::Usable ==> self.start <= self.end <= PHYS_ADDR_LIMIT
    }

    /// Number of frames that the region offers to the kernel.
    pub fn frame_count(&self) -> (n: u64)
        requires
            self.valid(),
        ensures
            n == self.frames(),
    {
        if let MemoryRegionKind::Usable = self.kind {
            let past: u64 = self.start % FRAME_SIZE;
            let first: u64 = if past == 0 {
                self.start
            } else {
                self.start - past + FRAME_SIZE
            };
            if first <= self.end {
                (self.end - first) / FRAME_SIZE
            } else {
                0
            }
        } else {
            0
        }
    }
}

/// Number of usable frames in a memory map.
pub open spec fn usable_frame_total(regions: Seq<MemoryRegion>) -> nat
    decreases regions.len(),
{
    if regions.len() == 0 {
        0
    } else {
        regions[0].frames() + usable_frame_total(regions.drop_first())
    }
}

/// Every region is valid, and the usable frames can be counted in a
/// `usize`.
pub open spec fn valid_memory_map(regions: Seq<MemoryRegion>) -> bool {
    &&& forall|i: int| 0 <= i < regions.len() ==> (#[trigger] regions[i]).valid()
    &&& usable_frame_total(regions) <= usize::MAX
}

/// Mebibytes that `frames` frames hold, rounded down.
pub open spec fn frames_to_mib(frames: nat) -> nat {
    frames * FRAME_SIZE as nat / 1024 / 1024
}

/// Taking the first of the remaining regions out of the count.
proof fn lemma_total_skip(regions: Seq<MemoryRegion>, i: int)
    requires
        0 <= i < regions.len(),
    ensures
        usable_frame_total(regions.skip(i)) == regions[i].frames() + usable_frame_total(
            regions.skip(i + 1),
        ),
{
    assert(regions.skip(i).drop_first() =~= regions.skip(i + 1));
    assert(regions.skip(i)[0] == regions[i]);
}

/// Whether a memory map is valid.
pub fn is_valid_memory_map(regions: &Vec<MemoryRegion>) -> (valid: bool)
    ensures
        valid == valid_memory_map(regions@),
{
    let mut total: usize = 0;
    let mut i: usize = 0;
    assert(regions@.skip(0) =~= regions@);
    while i < regions.len()
        invariant
            i <= regions.len(),
            forall|j: int| 0 <= j < i ==> (#[trigger] regions@[j]).valid(),
            total + usable_frame_total(regions@.skip(i as int)) == usable_frame_total(regions@),
        decreases regions.len() - i,
    {
        let region = regions[i];
        proof {
            lemma_total_skip(regions@, i as int);
        }
        if let MemoryRegionKind::Usable = region.kind {
            if region.start > region.end || region.end > PHYS_ADDR_LIMIT {
                assert(!regions@[i as int].valid());
                return false;
            }
            let frames: u64 = region.frame_count();
            if frames > (usize::MAX - total) as u64 {
                return false;
            }
            total = total + frames as usize;
        }
        i = i + 1;
    }
    assert(regions@.skip(i as int) =~= Seq::<MemoryRegion>::empty());
    true
}

/// What memory bring-up starts from: the frame allocator, the heap set-up
/// that has mapped nothing yet, and the numbers for the boot log.
pub struct MemoryInit {
    /// Allocator over the usable frames of the memory map.
    pub frame_allocator: BootInfoFrameAllocator,
    /// Progress of the kernel heap set-up.
    pub heap: HeapSetup,
    /// Number of usable frames in the memory map.
    pub usable_frames: u64,
    /// Usable memory in mebibytes, rounded down.
    pub usable_mib: u64,
}

/// Initialize the memory subsystem from the boot memory map: set up the
/// frame allocator, count the usable frames, and begin the heap set-up.
pub fn init(regions: Vec<MemoryRegion>) -> (init: MemoryInit)
    requires
        valid_memory_map(regions@),
    ensures
        init.frame_allocator.regions() == regions@,
        init.frame_allocator.allocated() == 0,
        init.frame_allocator.wf(),
        init.heap.mapped() == 0,
        !init.heap.allocator_ready(),
        init.usable_frames == usable_frame_total(regions@),
        init.usable_mib == frames_to_mib(usable_frame_total(regions@)),
{
    let usable_frames = count_usable_frames(&regions);
    let usable_mib = usable_frames / 256;
    MemoryInit {
        frame_allocator: BootInfoFrameAllocator::new(regions),
        heap: HeapSetup::new(),
        usable_frames,
        usable_mib,
    }
}

/// Number of usable frames in a valid memory map.
pub fn count_usable_frames(regions: &Vec<MemoryRegion>) -> (total: u64)
    requires
        valid_memory_map(regions@),
    ensures
        total == usable_frame_total(regions@),
{
    let mut total: u64 = 0;
    let mut i: usize = 0;
    assert(regions@.skip(0) =~= regions@);
    while i < regions.len()
        invariant
            i <= regions.len(),
            valid_memory_map(regions@),
            total + usable_frame_total(regions@.skip(i as int)) == usable_frame_total(regions@),
        decreases regions.len() - i,
    {
        let region = regions[i];
        proof {
            lemma_total_skip(regions@, i as int);
            assert(regions@[i as int].valid());
        }
        total = total + region.frame_count();
        i = i + 1;
    }
    assert(regions@.skip(i as int) =~= Seq::<MemoryRegion>::empty());
    total
}

} // verus!
