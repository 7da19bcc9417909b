//! The bootloader's memory map and the frames it yields.
//!
//! The bootloader hands the kernel, once, an ordered list of physical memory
//! regions, each tagged with what the firmware or the boot process uses it
//! for. Only regions tagged usable may ever be handed out for general kernel
//! use. This module defines the region data and the mathematical sequence of
//! 4 KiB frames that the usable regions contain: every region contributes the
//! frame-aligned addresses from its start to its end (exclusive), in address
//! order, and the regions contribute in the order the bootloader listed them.

use vstd::prelude::*;
use vstd::arithmetic::div_mod::{lemma_fundamental_div_mod, lemma_mod_multiples_basic};
use crate::addr::{PhysicalAddress, spec_align_down_4k};

verus! {

/// What a memory region is used for, as the bootloader reports it.
/// Only `Usable` regions are eligible for frame allocation; every other
/// kind is permanently excluded.
#[derive(Clone, Copy, Debug, PartialEq, Eq, Structural)]
pub enum RegionKind {
    /// Free for general kernel use.
    Usable,
    /// Currently in use by the kernel.
    InUse,
    /// Reserved by the firmware; never available.
    Reserved,
    /// ACPI tables; reclaimable once they have been parsed.
    AcpiReclaimable,
    /// ACPI non-volatile storage.
    AcpiNvs,
    /// Memory the firmware reported as defective.
    BadMemory,
    /// Occupied by the kernel image.
    Kernel,
    /// Occupied by the kernel stack.
    KernelStack,
    /// Occupied by boot-time page tables.
    PageTable,
    /// Occupied by the bootloader itself.
    Bootloader,
    /// The zero frame, kept out of circulation.
    FrameZero,
    /// An empty placeholder entry.
    Empty,
    /// Occupied by the boot information structure.
    BootInfo,
    /// Occupied by a package the bootloader carried along.
    Package,
}

/// One entry of the bootloader's memory map: the half-open physical range
/// `[start, end)` and what it is used for. The map is supplied once at kernel
/// entry and never changes afterwards.
#[derive(Clone, Copy, Debug, PartialEq, Eq, Structural)]
pub struct MemoryRegion {
    pub start: PhysicalAddress,
    pub end: PhysicalAddress,
    pub kind: RegionKind,
}

/// How many frame-aligned addresses stepping by 4096 from `start` visits
/// before reaching `end`: one per started 4 KiB of the region.
pub open spec fn region_frame_count(r: MemoryRegion) -> int {
    if r.end.0 <= r.start.0 {
        0
    } else {
        let len = r.end.0 - r.start.0;
        len / 4096 + if len % 4096 != 0 {
            1int
        } else {
            0int
        }
    }
}

/// The `i`-th frame of a region: the `i`-th step lands at `start + 4096 * i`,
/// and the frame containing that address begins at its 4 KiB alignment.
pub open spec fn region_frame(r: MemoryRegion, i: int) -> u64 {
    (spec_align_down_4k(r.start.0) + 4096 * i) as u64
}

/// All frames of one region, in increasing address order.
pub open spec fn region_frames(r: MemoryRegion) -> Seq<u64> {
    Seq::new(region_frame_count(r) as nat, |i: int| region_frame(r, i))
}

/// What one region contributes to the allocatable sequence: its frames if it
/// is usable, nothing otherwise.
pub open spec fn region_contribution(r: MemoryRegion) -> Seq<u64> {
    if r.kind == RegionKind::Usable {
        region_frames(r)
    } else {
        Seq::empty()
    }
}

/// The lazy sequence the allocator enumerates: the concatenation, in map
/// order, of the frames of every usable region.
pub open spec fn usable_frames_seq(rs: Seq<MemoryRegion>) -> Seq<u64>
    decreases rs.len(),
{
    if rs.len() == 0 {
        Seq::empty()
    } else {
        usable_frames_seq(rs.drop_last()) + region_contribution(rs.last())
    }
}

/// A well-formed bootloader map: every usable region starts on a frame
/// boundary, and usable regions are listed in increasing address order
/// without overlap. The bootloader guarantees both.
pub open spec fn map_wf(rs: Seq<MemoryRegion>) -> bool {
    &&& forall|i: int|
        0 <= i < rs.len() ==> ((#[trigger] rs[i]).kind == RegionKind::Usable ==> rs[i].start.0
            % 4096 == 0)
    &&& forall|i: int, j: int|
        0 <= i < j < rs.len() && (#[trigger] rs[i]).kind == RegionKind::Usable && (
        #[trigger] rs[j]).kind == RegionKind::Usable ==> rs[i].end.0 <= rs[j].start.0
}

/// Whether address `a` lies inside some usable region of the map.
pub open spec fn in_usable_region(rs: Seq<MemoryRegion>, a: u64) -> bool {
    exists|i: int|
        0 <= i < rs.len() && (#[trigger] rs[i]).kind == RegionKind::Usable && rs[i].start.0 <= a
            < rs[i].end.0
}

/// Every frame of a region stays strictly below the region's end, is frame
/// aligned, and does not wrap; if the region starts on a frame boundary, the
/// frame also lies at or above the region's start.
pub proof fn lemma_region_frame_fits(r: MemoryRegion, i: int)
    requires
        0 <= i < region_frame_count(r),
    ensures
        spec_align_down_4k(r.start.0) + 4096 * i < r.end.0,
        region_frame(r, i) == spec_align_down_4k(r.start.0) + 4096 * i,
        region_frame(r, i) % 4096 == 0,
        r.start.0 % 4096 == 0 ==> r.start.0 <= region_frame(r, i),
        i > 0 ==> region_frame(r, i - 1) < region_frame(r, i),
{
    let s = r.start.0 as int;
    let e = r.end.0 as int;
    let len = e - s;
    let q = len / 4096;
    let al = 4096 * (s / 4096);
    lemma_fundamental_div_mod(s, 4096);
    lemma_fundamental_div_mod(len, 4096);
    assert(al == s - s % 4096);
    assert(spec_align_down_4k(r.start.0) == al);
    // 4096 * i <= len - 1 in both remainder cases
    if len % 4096 != 0 {
        assert(i <= q);
        assert(4096 * i <= 4096 * q);
        assert(4096 * q == len - len % 4096);
    } else {
        assert(i <= q - 1);
        assert(4096 * i <= 4096 * q - 4096);
        assert(4096 * q == len);
    }
    assert(al + 4096 * i < e);
    assert(0 <= al + 4096 * i);
    // alignment: al + 4096 * i == (s / 4096 + i) * 4096
    assert(al + 4096 * i == (s / 4096 + i) * 4096);
    lemma_mod_multiples_basic(s / 4096 + i, 4096);
}

/// Appending the map's next region appends exactly that region's
/// contribution to the usable-frame sequence.
pub proof fn lemma_usable_frames_take_step(rs: Seq<MemoryRegion>, i: int)
    requires
        0 <= i < rs.len(),
    ensures
        usable_frames_seq(rs.take(i + 1)) == usable_frames_seq(rs.take(i)) + region_contribution(
            rs[i],
        ),
{
    let t = rs.take(i + 1);
    assert(t.drop_last() =~= rs.take(i));
    assert(t.last() == rs[i]);
}

/// The frames of the map's first `i` regions form a prefix of the frames of
/// the whole map.
pub proof fn lemma_usable_frames_prefix(rs: Seq<MemoryRegion>, i: int)
    requires
        0 <= i <= rs.len(),
    ensures
        usable_frames_seq(rs.take(i)).len() <= usable_frames_seq(rs).len(),
        forall|k: int|
            0 <= k < usable_frames_seq(rs.take(i)).len() ==> usable_frames_seq(rs)[k]
                == usable_frames_seq(rs.take(i))[k],
    decreases rs.len() - i,
{
    if i == rs.len() {
        assert(rs.take(i) =~= rs);
    } else {
        lemma_usable_frames_take_step(rs, i);
        lemma_usable_frames_prefix(rs, i + 1);
    }
}

/// Every frame the map yields is 4 KiB aligned.
pub proof fn lemma_usable_frames_aligned(rs: Seq<MemoryRegion>)
    ensures
        forall|k: int|
            0 <= k < usable_frames_seq(rs).len() ==> #[trigger] usable_frames_seq(rs)[k] % 4096
                == 0,
    decreases rs.len(),
{
    if rs.len() > 0 {
        let prev = rs.drop_last();
        let s1 = usable_frames_seq(prev);
        let c = region_contribution(rs.last());
        lemma_usable_frames_aligned(prev);
        assert forall|k: int| 0 <= k < usable_frames_seq(rs).len() implies #[trigger] usable_frames_seq(
            rs,
        )[k] % 4096 == 0 by {
            if k < s1.len() {
                assert(usable_frames_seq(rs)[k] == s1[k]);
            } else {
                assert(usable_frames_seq(rs)[k] == c[k - s1.len()]);
                lemma_region_frame_fits(rs.last(), k - s1.len());
            }
        }
    }
}

/// If every usable region of the map ends at or below `b`, every frame the
/// map yields lies strictly below `b`.
pub proof fn lemma_usable_frames_below(rs: Seq<MemoryRegion>, b: u64)
    requires
        forall|i: int|
            0 <= i < rs.len() ==> ((#[trigger] rs[i]).kind == RegionKind::Usable ==> rs[i].end.0
                <= b),
    ensures
        forall|k: int|
            0 <= k < usable_frames_seq(rs).len() ==> #[trigger] usable_frames_seq(rs)[k] < b,
    decreases rs.len(),
{
    if rs.len() > 0 {
        let prev = rs.drop_last();
        let s1 = usable_frames_seq(prev);
        let c = region_contribution(rs.last());
        assert(forall|i: int| 0 <= i < prev.len() ==> prev[i] == rs[i]);
        lemma_usable_frames_below(prev, b);
        assert forall|k: int| 0 <= k < usable_frames_seq(rs).len() implies #[trigger] usable_frames_seq(
            rs,
        )[k] < b by {
            if k < s1.len() {
                assert(usable_frames_seq(rs)[k] == s1[k]);
            } else {
                assert(rs.last() == rs[rs.len() - 1]);
                assert(usable_frames_seq(rs)[k] == c[k - s1.len()]);
                lemma_region_frame_fits(rs.last(), k - s1.len());
            }
        }
    }
}

/// On a well-formed map the usable-frame sequence is strictly increasing:
/// later frames always lie at strictly higher addresses.
pub proof fn lemma_usable_frames_increasing(rs: Seq<MemoryRegion>)
    requires
        map_wf(rs),
    ensures
        forall|i: int, j: int|
            0 <= i < j < usable_frames_seq(rs).len() ==> usable_frames_seq(rs)[i]
                < usable_frames_seq(rs)[j],
    decreases rs.len(),
{
    if rs.len() > 0 {
        let prev = rs.drop_last();
        let last = rs.last();
        let s1 = usable_frames_seq(prev);
        let c = region_contribution(last);
        assert(forall|i: int| 0 <= i < prev.len() ==> prev[i] == rs[i]);
        assert(map_wf(prev));
        lemma_usable_frames_increasing(prev);
        if last.kind == RegionKind::Usable {
            assert(last == rs[rs.len() - 1]);
            // every usable region before the last one ends at or below its start
            assert(forall|i: int|
                0 <= i < prev.len() ==> ((#[trigger] prev[i]).kind == RegionKind::Usable
                    ==> prev[i].end.0 <= last.start.0));
            lemma_usable_frames_below(prev, last.start.0);
            assert forall|i: int, j: int|
                0 <= i < j < usable_frames_seq(rs).len() implies usable_frames_seq(rs)[i]
                < usable_frames_seq(rs)[j] by {
                let s = usable_frames_seq(rs);
                if j < s1.len() {
                    assert(s[i] == s1[i] && s[j] == s1[j]);
                } else {
                    lemma_region_frame_fits(last, j - s1.len());
                    assert(s[j] == c[j - s1.len()]);
                    assert(last.start.0 <= s[j]);
                    if i < s1.len() {
                        assert(s[i] == s1[i]);
                        assert(s[i] < last.start.0);
                    } else {
                        assert(s[i] == c[i - s1.len()]);
                        // both in the last region: strictly increasing steps
                        lemma_region_frame_fits(last, i - s1.len());
                        assert(4096 * (i - s1.len()) < 4096 * (j - s1.len()));
                    }
                }
            }
        } else {
            assert(usable_frames_seq(rs) =~= s1);
        }
    }
}

/// Every frame the map yields lies inside a usable region, provided usable
/// regions start on frame boundaries.
pub proof fn lemma_usable_frames_in_usable_regions(rs: Seq<MemoryRegion>)
    requires
        forall|i: int|
            0 <= i < rs.len() ==> ((#[trigger] rs[i]).kind == RegionKind::Usable ==> rs[i].start.0
                % 4096 == 0),
    ensures
        forall|k: int|
            0 <= k < usable_frames_seq(rs).len() ==> in_usable_region(
                rs,
                #[trigger] usable_frames_seq(rs)[k],
            ),
    decreases rs.len(),
{
    if rs.len() > 0 {
        let prev = rs.drop_last();
        let last = rs.last();
        let s1 = usable_frames_seq(prev);
        let c = region_contribution(last);
        assert(forall|i: int| 0 <= i < prev.len() ==> prev[i] == rs[i]);
        lemma_usable_frames_in_usable_regions(prev);
        assert forall|k: int|
            0 <= k < usable_frames_seq(rs).len() implies in_usable_region(
            rs,
            #[trigger] usable_frames_seq(rs)[k],
        ) by {
            let s = usable_frames_seq(rs);
            if k < s1.len() {
                assert(s[k] == s1[k]);
                assert(in_usable_region(prev, s1[k]));
                let w = choose|i: int|
                    0 <= i < prev.len() && (#[trigger] prev[i]).kind == RegionKind::Usable
                        && prev[i].start.0 <= s1[k] < prev[i].end.0;
                assert(rs[w] == prev[w]);
            } else {
                assert(last == rs[rs.len() - 1]);
                assert(s[k] == c[k - s1.len()]);
                lemma_region_frame_fits(last, k - s1.len());
                assert(rs[rs.len() - 1].kind == RegionKind::Usable && rs[rs.len() - 1].start.0
                    <= s[k] < rs[rs.len() - 1].end.0);
            }
        }
    }
}

} // verus!
