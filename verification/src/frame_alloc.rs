//! The physical frame allocator.
//!
//! Built once over the bootloader's memory map, the allocator hands out
//! unused 4 KiB physical frames strictly in increasing address order, once
//! each: conceptually it enumerates the lazy sequence of all frame-aligned
//! addresses across all usable regions and keeps a cursor into it. Frames
//! are never taken back — reclamation is out of scope — so the cursor only
//! moves forward, and once the sequence is exhausted every further request
//! reports exhaustion. At kernel entry the allocator is created through its
//! own one-time guard, independent of the page table accessor's: a second
//! initialization is a logic error in the boot sequence and is refused.

use vstd::prelude::*;
use crate::addr::{PhysicalAddress, align_down_4k};
use crate::paging::InitError;
use crate::memory_map::{
    MemoryRegion, RegionKind, region_frame_count, region_frame, region_contribution,
    usable_frames_seq, map_wf, in_usable_region, lemma_region_frame_fits,
    lemma_usable_frames_take_step, lemma_usable_frames_prefix, lemma_usable_frames_aligned,
    lemma_usable_frames_increasing, lemma_usable_frames_in_usable_regions,
};

verus! {

/// A 4 KiB-aligned unit of physical memory, the granularity of allocation.
#[derive(Clone, Copy, Debug, PartialEq, Eq, Structural)]
pub struct Frame {
    pub start: PhysicalAddress,
}

impl Frame {
    /// A frame begins on a 4 KiB boundary.
    pub open spec fn wf(self) -> bool {
        self.start.0 % 4096 == 0
    }
}

/// Counts how many frames a region yields: one per started 4 KiB between
/// its start and its end.
fn count_region_frames(r: &MemoryRegion) -> (c: u64)
    ensures
        c == region_frame_count(*r),
{
    if r.end.0 <= r.start.0 {
        0
    } else {
        let len = r.end.0 - r.start.0;
        let rem: u64 = if len % 4096 != 0 {
            1
        } else {
            0
        };
        proof {
            vstd::arithmetic::div_mod::lemma_fundamental_div_mod(len as int, 4096);
        }
        len / 4096 + rem
    }
}

/// Returns the `n`-th element of the map's usable-frame sequence, or `None`
/// if the map yields fewer than `n + 1` frames.
fn nth_usable_frame(map: &Vec<MemoryRegion>, n: u64) -> (r: Option<u64>)
    ensures
        n < usable_frames_seq(map@).len() ==> r == Some(usable_frames_seq(map@)[n as int]),
        n >= usable_frames_seq(map@).len() ==> r is None,
{
    let mut skipped: u64 = 0;
    let mut i: usize = 0;
    while i < map.len()
        invariant
            0 <= i <= map@.len(),
            skipped == usable_frames_seq(map@.take(i as int)).len(),
            skipped <= n,
        decreases map@.len() - i,
    {
        let region = map[i];
        proof {
            lemma_usable_frames_take_step(map@, i as int);
        }
        if matches!(region.kind, RegionKind::Usable) {
            let c = count_region_frames(&region);
            if n - skipped < c {
                let k = n - skipped;
                proof {
                    lemma_region_frame_fits(region, k as int);
                    lemma_usable_frames_prefix(map@, i + 1 as int);
                    assert(usable_frames_seq(map@.take(i + 1 as int))[n as int] == region_frame(
                        region,
                        k as int,
                    ));
                    assert(n < usable_frames_seq(map@).len());
                    assert(usable_frames_seq(map@)[n as int] == region_frame(region, k as int));
                }
                let base = align_down_4k(region.start.0);
                return Some(base + k * 4096);
            }
            skipped = skipped + c;
        }
        i = i + 1;
    }
    proof {
        assert(map@.take(map@.len() as int) =~= map@);
    }
    None
}

/// The frame allocator over the bootloader's memory map.
///
/// `next` is the issue-count cursor: frames at positions below it in the
/// usable-frame sequence have been handed out and are never issued again.
pub struct BootInfoFrameAllocator {
    pub memory_map: Vec<MemoryRegion>,
    pub next: u64,
}

impl BootInfoFrameAllocator {
    /// The allocator can only count as many frames as a cursor can index:
    /// a machine limit, which every bootloader map satisfies by orders of
    /// magnitude.
    pub open spec fn wf(self) -> bool {
        usable_frames_seq(self.memory_map@).len() <= u64::MAX
    }

    /// Builds the allocator over the map the bootloader supplied, with the
    /// cursor at the first usable frame. The map is taken as-is: the
    /// allocator never mutates it. At kernel entry this runs through
    /// `FrameAllocatorGuard::init`, which gates it to happen once.
    pub fn init(memory_map: Vec<MemoryRegion>) -> (r: Self)
        requires
            usable_frames_seq(memory_map@).len() <= u64::MAX,
        ensures
            r.memory_map@ == memory_map@,
            r.next == 0,
            r.wf(),
    {
        BootInfoFrameAllocator { memory_map, next: 0 }
    }

    /// All frames the map will ever yield, in allocation order: the
    /// frame-aligned addresses of every usable region, regions in map order.
    pub fn usable_frames(&self) -> (r: Vec<Frame>)
        requires
            self.wf(),
        ensures
            r@.len() == usable_frames_seq(self.memory_map@).len(),
            forall|k: int|
                0 <= k < r@.len() ==> (#[trigger] r@[k]).start.0 == usable_frames_seq(
                    self.memory_map@,
                )[k],
    {
        let mut out: Vec<Frame> = Vec::new();
        let mut i: usize = 0;
        while i < self.memory_map.len()
            invariant
                0 <= i <= self.memory_map@.len(),
                out@.len() == usable_frames_seq(self.memory_map@.take(i as int)).len(),
                forall|k: int|
                    0 <= k < out@.len() ==> (#[trigger] out@[k]).start.0 == usable_frames_seq(
                        self.memory_map@.take(i as int),
                    )[k],
            decreases self.memory_map@.len() - i,
        {
            let region = self.memory_map[i];
            let ghost prefix = usable_frames_seq(self.memory_map@.take(i as int));
            proof {
                lemma_usable_frames_take_step(self.memory_map@, i as int);
            }
            if matches!(region.kind, RegionKind::Usable) {
                let c = count_region_frames(&region);
                let base = align_down_4k(region.start.0);
                let mut k: u64 = 0;
                while k < c
                    invariant
                        0 <= k <= c,
                        c == region_frame_count(region),
                        base == crate::addr::spec_align_down_4k(region.start.0),
                        out@.len() == prefix.len() + k,
                        forall|m: int|
                            0 <= m < prefix.len() ==> (#[trigger] out@[m]).start.0 == prefix[m],
                        forall|m: int|
                            prefix.len() <= m < out@.len() ==> (#[trigger] out@[m]).start.0
                                == region_frame(region, m - prefix.len()),
                    decreases c - k,
                {
                    proof {
                        lemma_region_frame_fits(region, k as int);
                    }
                    out.push(Frame { start: PhysicalAddress(base + k * 4096) });
                    k = k + 1;
                }
            }
            i = i + 1;
            proof {
                let now = usable_frames_seq(self.memory_map@.take(i as int));
                assert(now == prefix + region_contribution(region));
                assert(forall|k: int|
                    0 <= k < out@.len() ==> (#[trigger] out@[k]).start.0 == now[k]);
            }
        }
        proof {
            assert(self.memory_map@.take(self.memory_map@.len() as int) =~= self.memory_map@);
        }
        out
    }

    /// Hands out the next unused frame, or reports exhaustion.
    ///
    /// The frame returned is exactly the element of the usable-frame
    /// sequence at the cursor, and the cursor advances on every call —
    /// issued or not — so no frame is ever issued twice. Once the cursor
    /// has passed the end of usable memory the result is `None`, and —
    /// monotonic exhaustion — every further call returns `None` as well.
    /// Exhaustion is an ordinary absence signal for the caller, not a fault
    /// of the allocator. The precondition is the machine limit that the
    /// call counter itself not wrap.
    pub fn allocate_frame(&mut self) -> (r: Option<Frame>)
        requires
            old(self).wf(),
            old(self).next < u64::MAX,
        ensures
            final(self).wf(),
            final(self).memory_map@ == old(self).memory_map@,
            final(self).next == old(self).next + 1,
            old(self).next < usable_frames_seq(old(self).memory_map@).len() ==> r == Some(
                Frame {
                    start: PhysicalAddress(
                        usable_frames_seq(old(self).memory_map@)[old(self).next as int],
                    ),
                },
            ),
            old(self).next >= usable_frames_seq(old(self).memory_map@).len() ==> r is None,
            r matches Some(f) ==> f.wf(),
    {
        proof {
            lemma_usable_frames_aligned(self.memory_map@);
        }
        let frame = nth_usable_frame(&self.memory_map, self.next);
        self.next = self.next + 1;
        match frame {
            Some(addr) => Some(Frame { start: PhysicalAddress(addr) }),
            None => None,
        }
    }
}

/// The one-time guard on frame-allocator initialization: the allocator's
/// transition from uninitialized to active happens at most once per kernel
/// instance. The discipline is the same as the page table accessor's, but
/// enforced independently — the two components do not share a guard.
pub struct FrameAllocatorGuard {
    pub initialized: bool,
}

impl FrameAllocatorGuard {
    /// A fresh kernel instance: the allocator not yet created.
    pub fn new() -> (r: Self)
        ensures
            !r.initialized,
    {
        FrameAllocatorGuard { initialized: false }
    }

    /// One-time construction of the frame allocator over the bootloader's
    /// map.
    ///
    /// A second invocation on the same kernel instance signals a logic
    /// error in the boot sequence: it is detected and refused with
    /// `AlreadyInitialized` — never silent success — and the caller treats
    /// that as fatal and halts.
    pub fn init(&mut self, memory_map: Vec<MemoryRegion>) -> (r: Result<
        BootInfoFrameAllocator,
        InitError,
    >)
        requires
            usable_frames_seq(memory_map@).len() <= u64::MAX,
        ensures
            final(self).initialized,
            old(self).initialized ==> r == Err::<BootInfoFrameAllocator, InitError>(
                InitError::AlreadyInitialized,
            ),
            !old(self).initialized ==> r is Ok,
            r matches Ok(a) ==> a.memory_map@ == memory_map@ && a.next == 0 && a.wf(),
    {
        if self.initialized {
            return Err(InitError::AlreadyInitialized);
        }
        self.initialized = true;
        Ok(BootInfoFrameAllocator::init(memory_map))
    }
}

/// Single issue: however many frames the allocator hands out in one
/// enumeration pass, they are pairwise distinct — in fact issued in strictly
/// increasing address order — and every one of them lies inside a region the
/// bootloader marked usable. Requires the bootloader's map guarantees: usable
/// regions are frame aligned and listed in increasing order without overlap.
pub proof fn lemma_single_issue(rs: Seq<MemoryRegion>)
    requires
        map_wf(rs),
    ensures
        forall|i: int, j: int|
            0 <= i < j < usable_frames_seq(rs).len() ==> usable_frames_seq(rs)[i]
                != usable_frames_seq(rs)[j],
        forall|k: int|
            0 <= k < usable_frames_seq(rs).len() ==> in_usable_region(
                rs,
                #[trigger] usable_frames_seq(rs)[k],
            ),
{
    lemma_usable_frames_increasing(rs);
    lemma_usable_frames_in_usable_regions(rs);
}

/// Monotonic exhaustion: the cursor never moves backwards, so a cursor that
/// has passed the end of the usable-frame sequence stays past it — after the
/// first exhaustion signal, every later call on the same allocator reports
/// exhaustion as well.
pub proof fn lemma_monotonic_exhaustion(rs: Seq<MemoryRegion>, cursor: u64, later: u64)
    requires
        cursor >= usable_frames_seq(rs).len(),
        later >= cursor,
    ensures
        later >= usable_frames_seq(rs).len(),
{
}

} // verus!
