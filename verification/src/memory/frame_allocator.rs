//! Physical frame allocator over the boot memory map.
//!
//! A bump allocator: the usable frames are numbered in the order of the
//! memory map, and each allocation asks for the next number, whether or
//! not the map has a frame of that number. Frames are not freed.

use crate::memory::{
    usable_frame_total, valid_memory_map, MemoryRegion, MemoryRegionKind, FRAME_SIZE,
    PHYS_ADDR_LIMIT,
};
use vstd::prelude::*;

verus! {

/// Start address of the frame that contains the physical address `addr`.
pub open spec fn frame_start(addr: int) -> int {
    addr - addr % (FRAME_SIZE as int)
}

/// The `n`-th usable frame of a memory map, counted from 0: its start
/// address. The frames of a usable region are those that lie wholly inside
/// it, in ascending order; the regions count in the order of the map.
pub open spec fn frame_at(regions: Seq<MemoryRegion>, n: nat) -> Option<u64>
    decreases regions.len(),
{
    if regions.len() == 0 {
        None
    } else if n < regions[0].frames() {
        Some((regions[0].first_frame() + n * FRAME_SIZE) as u64)
    } else {
        frame_at(regions.drop_first(), (n - regions[0].frames()) as nat)
    }
}

/// There is an `n`-th frame exactly if `n` is less than the number of
/// usable frames.
pub proof fn lemma_frame_at_exists(regions: Seq<MemoryRegion>, n: nat)
    ensures
        frame_at(regions, n) is Some <==> n < usable_frame_total(regions),
    decreases regions.len(),
{
    if regions.len() > 0 && n >= regions[0].frames() {
        lemma_frame_at_exists(regions.drop_first(), (n - regions[0].frames()) as nat);
    }
}

/// Every frame of a valid memory map starts on a frame boundary, and lies
/// wholly inside a usable region.
pub proof fn lemma_frame_at_aligned(regions: Seq<MemoryRegion>, n: nat)
    requires
        forall|i: int| 0 <= i < regions.len() ==> (#[trigger] regions[i]).valid(),
        frame_at(regions, n) is Some,
    ensures
        frame_at(regions, n)->Some_0 % FRAME_SIZE == 0,
        exists|i: int|
            0 <= i < regions.len() && (#[trigger] regions[i]).kind == MemoryRegionKind::Usable
                && regions[i].start <= frame_at(regions, n)->Some_0 && frame_at(
                regions,
                n,
            )->Some_0 + FRAME_SIZE <= regions[i].end,
    decreases regions.len(),
{
    if n < regions[0].frames() {
        assert(regions[0].valid());
        let frame = regions[0].first_frame() + n * FRAME_SIZE;
        assert(regions[0].start <= frame && frame + FRAME_SIZE <= regions[0].end);
        assert(frame % (FRAME_SIZE as int) == 0);
    } else {
        let rest = regions.drop_first();
        let m = (n - regions[0].frames()) as nat;
        assert forall|i: int| 0 <= i < rest.len() implies (#[trigger] rest[i]).valid() by {
            assert(rest[i] == regions[i + 1]);
        }
        lemma_frame_at_aligned(rest, m);
        let i = choose|i: int|
            0 <= i < rest.len() && (#[trigger] rest[i]).kind == MemoryRegionKind::Usable
                && rest[i].start <= frame_at(rest, m)->Some_0 && frame_at(rest, m)->Some_0
                + FRAME_SIZE <= rest[i].end;
        assert(rest[i] == regions[i + 1]);
        assert(regions[i + 1].kind == MemoryRegionKind::Usable);
    }
}

/// Start address of the frame that contains a physical address.
///
/// Calls `x86_64::structures::paging::PhysFrame::containing_address` on
/// the address, which aligns it down to the frame size of 4 KiB. The
/// address goes in through `x86_64::PhysAddr::new`, which panics on an
/// address with a bit from 52 upwards set: such an address is not
/// admitted.
#[verifier::external_body]
fn frame_containing(addr: u64) -> (start: u64)
    requires
        addr < PHYS_ADDR_LIMIT,
    ensures
        start == frame_start(addr as int),
{
    let addr = x86_64::PhysAddr::new(addr);
    let frame = x86_64::structures::paging::PhysFrame::<
        x86_64::structures::paging::Size4KiB,
    >::containing_address(addr);
    frame.start_address().as_u64()
}

/// A frame allocator that yields the usable frames of the boot memory map,
/// one after the other.
pub struct BootInfoFrameAllocator {
    memory_regions: Vec<MemoryRegion>,
    next: usize,
}

impl BootInfoFrameAllocator {
    /// The memory map that the frames are taken from.
    pub closed spec fn regions(&self) -> Seq<MemoryRegion> {
        self.memory_regions@
    }

    /// Number of allocations made so far, failed ones included: the number
    /// of the frame that the next allocation asks for.
    pub closed spec fn allocated(&self) -> nat {
        self.next as nat
    }

    /// The memory map is valid.
    pub open spec fn wf(&self) -> bool {
        valid_memory_map(self.regions())
    }

    /// Whether the counter of allocations can still go up by one.
    pub open spec fn has_room(&self) -> bool {
        self.allocated() < usize::MAX
    }

    /// Create a new frame allocator from the boot memory map. The caller
    /// vouches that the memory map is valid and that all usable regions
    /// are truly unused.
    pub fn new(memory_regions: Vec<MemoryRegion>) -> (allocator: BootInfoFrameAllocator)
        requires
            valid_memory_map(memory_regions@),
        ensures
            allocator.regions() == memory_regions@,
            allocator.allocated() == 0,
            allocator.wf(),
    {
        BootInfoFrameAllocator { memory_regions, next: 0 }
    }

    /// Number of allocations made so far, failed ones included.
    pub fn allocated_frames(&self) -> (n: usize)
        ensures
            n == self.allocated(),
    {
        self.next
    }

    /// Whether a further allocation can be counted.
    pub fn can_allocate(&self) -> (b: bool)
        ensures
            b == self.has_room(),
    {
        self.next < usize::MAX
    }

    /// The `n`-th usable frame, counted from 0, if the memory map has that
    /// many.
    pub fn usable_frame(&self, n: usize) -> (frame: Option<u64>)
        requires
            valid_memory_map(self.regions()),
        ensures
            frame == frame_at(self.regions(), n as nat),
    {
        let mut skip: u64 = n as u64;
        let mut i: usize = 0;
        assert(self.memory_regions@.skip(0) =~= self.memory_regions@);
        while i < self.memory_regions.len()
            invariant
                i <= self.memory_regions.len(),
                valid_memory_map(self.memory_regions@),
                frame_at(self.memory_regions@, n as nat) == frame_at(
                    self.memory_regions@.skip(i as int),
                    skip as nat,
                ),
            decreases self.memory_regions.len() - i,
        {
            let region = self.memory_regions[i];
            proof {
                let rest = self.memory_regions@.skip(i as int);
                assert(rest[0] == self.memory_regions@[i as int]);
                assert(rest.drop_first() =~= self.memory_regions@.skip(i + 1));
                assert(self.memory_regions@[i as int].valid());
            }
            let frames: u64 = region.frame_count();
            if skip < frames {
                // An address inside the frame that is asked for: 4095 bytes
                // past `start` lies in the first frame that begins in the
                // region, and each further frame is 4096 bytes on.
                let inside: u64 = region.start + (FRAME_SIZE - 1) + skip * FRAME_SIZE;
                assert(frame_start(inside as int) == region.first_frame() + skip * FRAME_SIZE);
                return Some(frame_containing(inside));
            }
            skip = skip - frames;
            i = i + 1;
        }
        assert(self.memory_regions@.skip(i as int) =~= Seq::<MemoryRegion>::empty());
        None
    }

    /// Allocate the next usable frame: its start address, or `None` when
    /// the memory map has no frame of that number. Every call counts as an
    /// allocation, so a call that fails is followed by calls that fail.
    pub fn allocate_frame(&mut self) -> (frame: Option<u64>)
        requires
            old(self).wf(),
            old(self).has_room(),
        ensures
            frame == frame_at(old(self).regions(), old(self).allocated()),
            frame is Some <==> old(self).allocated() < usable_frame_total(old(self).regions()),
            final(self).regions() == old(self).regions(),
            final(self).allocated() == old(self).allocated() + 1,
            final(self).wf(),
    {
        let frame = self.usable_frame(self.next);
        proof {
            lemma_frame_at_exists(self.memory_regions@, self.next as nat);
        }
        self.next = self.next + 1;
        frame
    }
}

} // verus!
