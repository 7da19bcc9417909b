use rust_os::addr::PhysicalAddress;
use rust_os::frame_alloc::{BootInfoFrameAllocator, FrameAllocatorGuard};
use rust_os::memory_map::{MemoryRegion, RegionKind};
use rust_os::paging::InitError;

fn region(start: u64, end: u64, kind: RegionKind) -> MemoryRegion {
    MemoryRegion {
        start: PhysicalAddress(start),
        end: PhysicalAddress(end),
        kind,
    }
}

#[test]
fn single_frame_region_then_exhaustion() {
    let map = vec![region(0x100000, 0x101000, RegionKind::Usable)];
    let mut alloc = BootInfoFrameAllocator::init(map);
    let first = alloc.allocate_frame();
    assert_eq!(first.map(|f| f.start), Some(PhysicalAddress(0x100000)));
    let second = alloc.allocate_frame();
    assert!(second.is_none());
}

#[test]
fn reserved_region_excluded() {
    let map = vec![
        region(0, 0x1000, RegionKind::Reserved),
        region(0x1000, 0x2000, RegionKind::Usable),
    ];
    let mut alloc = BootInfoFrameAllocator::init(map);
    let first = alloc.allocate_frame();
    assert_eq!(first.map(|f| f.start), Some(PhysicalAddress(0x1000)));
    assert!(alloc.allocate_frame().is_none());
}

#[test]
fn exhaustion_is_monotonic() {
    let map = vec![region(0x2000, 0x4000, RegionKind::Usable)];
    let mut alloc = BootInfoFrameAllocator::init(map);
    assert!(alloc.allocate_frame().is_some());
    assert!(alloc.allocate_frame().is_some());
    for _ in 0..8 {
        assert!(alloc.allocate_frame().is_none());
    }
}

#[test]
fn frames_distinct_aligned_and_usable() {
    let map = vec![
        region(0x0, 0x3000, RegionKind::Kernel),
        region(0x3000, 0x6000, RegionKind::Usable),
        region(0x6000, 0x7000, RegionKind::Reserved),
        region(0x9000, 0xc000, RegionKind::Usable),
    ];
    let usable = [(0x3000u64, 0x6000u64), (0x9000, 0xc000)];
    let mut alloc = BootInfoFrameAllocator::init(map);
    let mut issued: Vec<u64> = Vec::new();
    while let Some(f) = alloc.allocate_frame() {
        issued.push(f.start.0);
    }
    assert_eq!(issued.len(), 6);
    for (i, a) in issued.iter().enumerate() {
        assert_eq!(a % 4096, 0);
        assert!(usable.iter().any(|&(s, e)| s <= *a && *a < e));
        for b in issued.iter().skip(i + 1) {
            assert_ne!(*a, *b);
        }
    }
}

#[test]
fn frames_issued_in_increasing_order() {
    let map = vec![
        region(0x1000, 0x3000, RegionKind::Usable),
        region(0x5000, 0x8000, RegionKind::Usable),
    ];
    let mut alloc = BootInfoFrameAllocator::init(map);
    let mut last: Option<u64> = None;
    while let Some(f) = alloc.allocate_frame() {
        if let Some(prev) = last {
            assert!(prev < f.start.0);
        }
        last = Some(f.start.0);
    }
    assert_eq!(last, Some(0x7000));
}

#[test]
fn usable_frames_lists_every_frame_in_order() {
    let map = vec![
        region(0, 0x1000, RegionKind::FrameZero),
        region(0x1000, 0x4000, RegionKind::Usable),
        region(0x4000, 0x5000, RegionKind::Bootloader),
        region(0x5000, 0x6000, RegionKind::Usable),
    ];
    let alloc = BootInfoFrameAllocator::init(map);
    let frames: Vec<u64> = alloc.usable_frames().iter().map(|f| f.start.0).collect();
    assert_eq!(frames, vec![0x1000, 0x2000, 0x3000, 0x5000]);
}

#[test]
fn empty_map_yields_nothing() {
    let mut alloc = BootInfoFrameAllocator::init(Vec::new());
    assert!(alloc.allocate_frame().is_none());
}

#[test]
fn empty_region_yields_nothing() {
    let map = vec![region(0x8000, 0x8000, RegionKind::Usable)];
    let mut alloc = BootInfoFrameAllocator::init(map);
    assert!(alloc.allocate_frame().is_none());
}

#[test]
fn partial_frame_counts_as_one() {
    // A region covering a started but incomplete 4 KiB still yields the
    // frame containing its start.
    let map = vec![region(0x1000, 0x1800, RegionKind::Usable)];
    let mut alloc = BootInfoFrameAllocator::init(map);
    assert_eq!(alloc.allocate_frame().map(|f| f.start.0), Some(0x1000));
    assert!(alloc.allocate_frame().is_none());
}

#[test]
fn cursor_advances_on_every_call() {
    let map = vec![region(0x1000, 0x3000, RegionKind::Usable)];
    let mut alloc = BootInfoFrameAllocator::init(map);
    assert_eq!(alloc.next, 0);
    alloc.allocate_frame();
    assert_eq!(alloc.next, 1);
    alloc.allocate_frame();
    assert_eq!(alloc.next, 2);
    // the cursor counts calls, so it advances past the end on exhaustion too
    assert!(alloc.allocate_frame().is_none());
    assert_eq!(alloc.next, 3);
}

#[test]
fn allocator_initializes_once() {
    let mut guard = FrameAllocatorGuard::new();
    let map = vec![region(0x1000, 0x2000, RegionKind::Usable)];
    let mut alloc = guard.init(map).expect("first initialization must succeed");
    assert_eq!(alloc.next, 0);
    assert_eq!(alloc.allocate_frame().map(|f| f.start.0), Some(0x1000));
}

#[test]
fn allocator_reinitialization_is_rejected() {
    let mut guard = FrameAllocatorGuard::new();
    assert!(guard.init(vec![region(0x1000, 0x2000, RegionKind::Usable)]).is_ok());
    let again = guard.init(vec![region(0x5000, 0x6000, RegionKind::Usable)]);
    match again {
        Err(e) => assert_eq!(e, InitError::AlreadyInitialized),
        Ok(_) => panic!("second initialization must be rejected"),
    }
    // and it stays rejected
    let third = guard.init(Vec::new());
    match third {
        Err(e) => assert_eq!(e, InitError::AlreadyInitialized),
        Ok(_) => panic!("third initialization must be rejected"),
    }
}
