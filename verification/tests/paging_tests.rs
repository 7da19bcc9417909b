use rust_os::addr::{PhysicalAddress, VirtualAddress};
use rust_os::paging::{
    InitError, PageTable, PageTableAccessor, PageTableEntry, TableStore, TranslationError,
};

const OFFSET: u64 = 0xffff_8000_0000_0000;

fn present_entry(frame_base: u64) -> PageTableEntry {
    PageTableEntry(frame_base | 1)
}

fn huge_entry(frame_base: u64) -> PageTableEntry {
    PageTableEntry(frame_base | 0x80 | 1)
}

fn table_with(index: usize, entry: PageTableEntry) -> PageTable {
    let mut t = PageTable::empty();
    t.set_entry(index, entry);
    t
}

// A virtual address with index fields 1, 2, 3, 4 and page offset 0xabc.
const VADDR: u64 = (1 << 39) | (2 << 30) | (3 << 21) | (4 << 12) | 0xabc;

#[test]
fn accessor_initializes_once() {
    let mut accessor = PageTableAccessor::new();
    let ctx = accessor.init(PhysicalAddress(0x1000), OFFSET);
    match ctx {
        Ok(c) => {
            assert_eq!(c.l4_table, VirtualAddress(OFFSET + 0x1000));
            assert_eq!(c.physical_memory_offset, OFFSET);
            assert_eq!(c.l4_base(), 0x1000);
        }
        Err(_) => panic!("first initialization must succeed"),
    }
}

#[test]
fn reinitialization_is_rejected() {
    let mut accessor = PageTableAccessor::new();
    assert!(accessor.init(PhysicalAddress(0x1000), OFFSET).is_ok());
    let again = accessor.init(PhysicalAddress(0x1000), OFFSET);
    assert_eq!(again, Err(InitError::AlreadyInitialized));
    // and it stays rejected
    let third = accessor.init(PhysicalAddress(0x2000), OFFSET);
    assert_eq!(third, Err(InitError::AlreadyInitialized));
}

#[test]
fn translation_resolves_a_mapped_address() {
    let mut accessor = PageTableAccessor::new();
    let ctx = accessor.init(PhysicalAddress(0x1000), OFFSET).unwrap();

    let mut store = TableStore::new();
    store.add_table(0x1000, table_with(1, present_entry(0x2000)));
    store.add_table(0x2000, table_with(2, present_entry(0x3000)));
    store.add_table(0x3000, table_with(3, present_entry(0x4000)));
    store.add_table(0x4000, table_with(4, present_entry(0x5000)));

    let r = store.translate_addr(&ctx, VirtualAddress(VADDR));
    assert_eq!(r, Ok(PhysicalAddress(0x5abc)));
}

#[test]
fn not_present_level_1_entry_is_not_mapped() {
    let mut accessor = PageTableAccessor::new();
    let ctx = accessor.init(PhysicalAddress(0x1000), OFFSET).unwrap();

    let mut store = TableStore::new();
    store.add_table(0x1000, table_with(1, present_entry(0x2000)));
    store.add_table(0x2000, table_with(2, present_entry(0x3000)));
    store.add_table(0x3000, table_with(3, present_entry(0x4000)));
    // level-1 table: entry 4 left clear, i.e. not present
    store.add_table(0x4000, PageTable::empty());

    let r = store.translate_addr(&ctx, VirtualAddress(VADDR));
    assert_eq!(r, Err(TranslationError::NotMapped));
}

#[test]
fn large_page_entry_is_unsupported() {
    let mut accessor = PageTableAccessor::new();
    let ctx = accessor.init(PhysicalAddress(0x1000), OFFSET).unwrap();

    let mut store = TableStore::new();
    store.add_table(0x1000, table_with(1, present_entry(0x2000)));
    store.add_table(0x2000, table_with(2, present_entry(0x3000)));
    // level-2 entry maps a large page
    store.add_table(0x3000, table_with(3, huge_entry(0x4000)));

    let r = store.translate_addr(&ctx, VirtualAddress(VADDR));
    assert_eq!(r, Err(TranslationError::UnsupportedMapping));
}

#[test]
fn empty_store_is_not_mapped() {
    let mut accessor = PageTableAccessor::new();
    let ctx = accessor.init(PhysicalAddress(0x1000), OFFSET).unwrap();
    let store = TableStore::new();
    let r = store.translate_addr(&ctx, VirtualAddress(VADDR));
    assert_eq!(r, Err(TranslationError::NotMapped));
}

#[test]
fn index_fields_are_extracted() {
    assert_eq!(rust_os::paging::p4_index(VADDR), 1);
    assert_eq!(rust_os::paging::p3_index(VADDR), 2);
    assert_eq!(rust_os::paging::p2_index(VADDR), 3);
    assert_eq!(rust_os::paging::p1_index(VADDR), 4);
    assert_eq!(rust_os::paging::page_offset(VADDR), 0xabc);
}

#[test]
fn entry_flags_are_read() {
    let e = present_entry(0x7000);
    assert!(e.is_present());
    assert!(!e.is_huge());
    assert_eq!(e.frame_base(), 0x7000);
    let h = huge_entry(0x200000);
    assert!(h.is_huge());
    assert!(!PageTableEntry(0).is_present());
}

#[test]
fn offset_conversion_round_trips() {
    let p = PhysicalAddress(0x3f_c000);
    let v = p.to_virtual(OFFSET);
    assert_eq!(v, VirtualAddress(OFFSET + 0x3f_c000));
    assert_eq!(v.to_physical(OFFSET), p);
}
