//! The page table accessor and the four-level translation walk.
//!
//! The hardware maps virtual to physical addresses through a tree of
//! 512-entry tables, four levels deep. The accessor locates the active
//! top-level table — its physical frame is read from the CPU's page-table
//! base register by the caller at kernel entry — and pairs its offset-mapped
//! virtual location with the fixed physical-memory offset into a reusable
//! translation context. It may be initialized exactly once per kernel
//! instance: a second live mutable view of the same hardware table would
//! break the single-writer discipline, so a repeated initialization is
//! detected and reported as a fatal error for the caller to halt on.
//!
//! The walk itself is specified over an explicit store of tables keyed by
//! their physical base address, the library's view of offset-mapped physical
//! memory: at each level the entry indexed by the address's 9-bit field is
//! read; a non-present entry ends the walk as not-mapped (recoverable), a
//! large-page entry as unsupported (large pages are a deliberately excluded
//! capability), and at the last level the page offset is added to the
//! resolved frame.

use vstd::prelude::*;
use crate::addr::{PhysicalAddress, VirtualAddress};

verus! {

/// One hardware page-table entry: a 64-bit word whose low bit marks the
/// entry present, whose bit 7 marks a large page, and whose bits 12..52
/// hold the physical base of the next table or of the mapped frame.
#[derive(Clone, Copy, Debug, PartialEq, Eq, Structural)]
pub struct PageTableEntry(pub u64);

impl PageTableEntry {
    /// Whether the entry maps anything at all.
    pub open spec fn spec_is_present(self) -> bool {
        self.0 & 1 == 1
    }

    /// Whether the entry maps a page larger than the base page size.
    pub open spec fn spec_is_huge(self) -> bool {
        self.0 & 0x80 == 0x80
    }

    /// The physical base address held in the entry.
    pub open spec fn spec_frame_base(self) -> u64 {
        self.0 & 0x000f_ffff_ffff_f000
    }

    pub fn is_present(self) -> (r: bool)
        ensures
            r == self.spec_is_present(),
    {
        self.0 & 1 == 1
    }

    pub fn is_huge(self) -> (r: bool)
        ensures
            r == self.spec_is_huge(),
    {
        self.0 & 0x80 == 0x80
    }

    pub fn frame_base(self) -> (r: u64)
        ensures
            r == self.spec_frame_base(),
            r <= 0x000f_ffff_ffff_f000,
    {
        let bits = self.0;
        proof {
            assert(bits & 0x000f_ffff_ffff_f000 <= 0x000f_ffff_ffff_f000) by (bit_vector);
        }
        bits & 0x000f_ffff_ffff_f000
    }
}

/// One hardware-defined tree node: exactly 512 entries.
pub struct PageTable {
    pub entries: Vec<PageTableEntry>,
}

impl PageTable {
    pub open spec fn wf(self) -> bool {
        self.entries@.len() == 512
    }

    /// A table with every entry cleared: nothing mapped through it.
    pub fn empty() -> (r: PageTable)
        ensures
            r.wf(),
            forall|i: int| 0 <= i < 512 ==> (#[trigger] r.entries@[i]).0 == 0,
    {
        let mut entries: Vec<PageTableEntry> = Vec::new();
        let mut i: usize = 0;
        while i < 512
            invariant
                0 <= i <= 512,
                entries@.len() == i,
                forall|k: int| 0 <= k < i ==> (#[trigger] entries@[k]).0 == 0,
            decreases 512 - i,
        {
            entries.push(PageTableEntry(0));
            i = i + 1;
        }
        PageTable { entries }
    }

    /// Replaces one entry of the table.
    pub fn set_entry(&mut self, index: usize, entry: PageTableEntry)
        requires
            old(self).wf(),
            index < 512,
        ensures
            final(self).wf(),
            final(self).entries@ == old(self).entries@.update(index as int, entry),
    {
        self.entries.set(index, entry);
    }
}

/// The 9-bit level-4 index field of a virtual address.
pub open spec fn spec_p4_index(v: u64) -> u64 {
    (v >> 39) & 0x1ff
}

/// The 9-bit level-3 index field of a virtual address.
pub open spec fn spec_p3_index(v: u64) -> u64 {
    (v >> 30) & 0x1ff
}

/// The 9-bit level-2 index field of a virtual address.
pub open spec fn spec_p2_index(v: u64) -> u64 {
    (v >> 21) & 0x1ff
}

/// The 9-bit level-1 index field of a virtual address.
pub open spec fn spec_p1_index(v: u64) -> u64 {
    (v >> 12) & 0x1ff
}

/// The byte offset of a virtual address within its page.
pub open spec fn spec_page_offset(v: u64) -> u64 {
    v & 0xfff
}

pub fn p4_index(v: u64) -> (r: u64)
    ensures
        r == spec_p4_index(v),
        r < 512,
{
    proof {
        assert((v >> 39) & 0x1ff < 512) by (bit_vector);
    }
    (v >> 39) & 0x1ff
}

pub fn p3_index(v: u64) -> (r: u64)
    ensures
        r == spec_p3_index(v),
        r < 512,
{
    proof {
        assert((v >> 30) & 0x1ff < 512) by (bit_vector);
    }
    (v >> 30) & 0x1ff
}

pub fn p2_index(v: u64) -> (r: u64)
    ensures
        r == spec_p2_index(v),
        r < 512,
{
    proof {
        assert((v >> 21) & 0x1ff < 512) by (bit_vector);
    }
    (v >> 21) & 0x1ff
}

pub fn p1_index(v: u64) -> (r: u64)
    ensures
        r == spec_p1_index(v),
        r < 512,
{
    proof {
        assert((v >> 12) & 0x1ff < 512) by (bit_vector);
    }
    (v >> 12) & 0x1ff
}

pub fn page_offset(v: u64) -> (r: u64)
    ensures
        r == spec_page_offset(v),
        r < 4096,
{
    proof {
        assert(v & 0xfff < 4096) by (bit_vector);
    }
    v & 0xfff
}

/// How a translation attempt can end short of a physical address.
#[derive(Clone, Copy, Debug, PartialEq, Eq, Structural)]
pub enum TranslationError {
    /// The address has no current mapping: an entry on its path is marked
    /// not present. Expected and recoverable for the caller.
    NotMapped,
    /// The address is mapped by a page larger than the base page size,
    /// a capability this design deliberately excludes. A hard error
    /// surfaced to the caller, never silently handled.
    UnsupportedMapping,
}

/// The kernel's reusable handle for walking the active page-table tree:
/// the top-level table's offset-mapped virtual location, paired with the
/// fixed physical-memory offset used at every hop of a walk.
#[derive(Clone, Copy, Debug, PartialEq, Eq, Structural)]
pub struct TranslationContext {
    pub l4_table: VirtualAddress,
    pub physical_memory_offset: u64,
}

impl TranslationContext {
    /// The top-level table's virtual location lies at or above the offset,
    /// since it was produced by adding the offset to a physical address.
    pub open spec fn wf(self) -> bool {
        self.physical_memory_offset <= self.l4_table.0
    }

    /// The physical base of the top-level table.
    pub open spec fn spec_l4_base(self) -> u64 {
        (self.l4_table.0 - self.physical_memory_offset) as u64
    }

    pub fn l4_base(&self) -> (r: u64)
        requires
            self.wf(),
        ensures
            r == self.spec_l4_base(),
    {
        self.l4_table.0 - self.physical_memory_offset
    }
}

/// The failure a repeated initialization is reported as. It signals a logic
/// error in the boot sequence; the caller halts the kernel on it.
#[derive(Clone, Copy, Debug, PartialEq, Eq, Structural)]
pub enum InitError {
    AlreadyInitialized,
}

/// The one-time guard on page-table access, an explicit value created at
/// kernel entry in place of ambient global state.
pub struct PageTableAccessor {
    pub initialized: bool,
}

impl PageTableAccessor {
    /// A fresh kernel instance: nothing initialized yet.
    pub fn new() -> (r: Self)
        ensures
            !r.initialized,
    {
        PageTableAccessor { initialized: false }
    }

    /// One-time initialization of page-table access.
    ///
    /// `l4_frame` is the physical base of the active top-level table, as
    /// read from the CPU's page-table base register by the caller; the
    /// physical-memory offset must be the base at which the bootloader has
    /// already mapped all physical memory (that mapping is assumed here,
    /// not created). No table contents are touched: this is a pure lookup
    /// that adds the offset to obtain the table's virtual location.
    ///
    /// Re-init rejection: a second invocation on the same kernel instance
    /// is detected and refused with `AlreadyInitialized` — never silent
    /// success — since two live mutable views of one hardware table would
    /// break the single-writer discipline. The caller treats that as fatal
    /// and halts.
    pub fn init(&mut self, l4_frame: PhysicalAddress, physical_memory_offset: u64) -> (r: Result<
        TranslationContext,
        InitError,
    >)
        requires
            physical_memory_offset + l4_frame.0 <= u64::MAX,
        ensures
            final(self).initialized,
            old(self).initialized ==> r == Err::<TranslationContext, InitError>(
                InitError::AlreadyInitialized,
            ),
            !old(self).initialized ==> r == Ok::<TranslationContext, InitError>(
                (TranslationContext {
                    l4_table: VirtualAddress((physical_memory_offset + l4_frame.0) as u64),
                    physical_memory_offset,
                }),
            ),
            r matches Ok(ctx) ==> ctx.wf() && ctx.spec_l4_base() == l4_frame.0,
    {
        if self.initialized {
            return Err(InitError::AlreadyInitialized);
        }
        self.initialized = true;
        Ok(
            TranslationContext {
                l4_table: VirtualAddress(physical_memory_offset + l4_frame.0),
                physical_memory_offset,
            },
        )
    }
}

/// The first table in the store whose recorded physical base is `base`.
pub open spec fn find_table_spec(tables: Seq<(u64, PageTable)>, base: u64) -> Option<PageTable>
    decreases tables.len(),
{
    if tables.len() == 0 {
        None
    } else if tables[0].0 == base {
        Some(tables[0].1)
    } else {
        find_table_spec(tables.drop_first(), base)
    }
}

/// One hop of the walk: reading the entry at `index` of the table based at
/// `base`. A base address with no table recorded in the store reads as
/// nothing mapped.
pub open spec fn spec_step(tables: Seq<(u64, PageTable)>, base: u64, index: int) -> Result<
    u64,
    TranslationError,
> {
    match find_table_spec(tables, base) {
        None => Err(TranslationError::NotMapped),
        Some(t) => {
            let e = t.entries@[index];
            if !e.spec_is_present() {
                Err(TranslationError::NotMapped)
            } else if e.spec_is_huge() {
                Err(TranslationError::UnsupportedMapping)
            } else {
                Ok(e.spec_frame_base())
            }
        },
    }
}

/// The whole four-level walk: each level follows the entry indexed by the
/// address's field for that level, and the last level adds the page offset
/// to the resolved frame's base.
pub open spec fn spec_translate(tables: Seq<(u64, PageTable)>, l4_base: u64, v: u64) -> Result<
    u64,
    TranslationError,
> {
    match spec_step(tables, l4_base, spec_p4_index(v) as int) {
        Err(e) => Err(e),
        Ok(b3) => match spec_step(tables, b3, spec_p3_index(v) as int) {
            Err(e) => Err(e),
            Ok(b2) => match spec_step(tables, b2, spec_p2_index(v) as int) {
                Err(e) => Err(e),
                Ok(b1) => match spec_step(tables, b1, spec_p1_index(v) as int) {
                    Err(e) => Err(e),
                    Ok(b0) => Ok((b0 + spec_page_offset(v)) as u64),
                },
            },
        },
    }
}

/// The library's view of offset-mapped physical memory for walking: the
/// page tables it can read, each keyed by its physical base address.
pub struct TableStore {
    pub tables: Vec<(u64, PageTable)>,
}

impl TableStore {
    pub open spec fn wf(self) -> bool {
        forall|i: int| 0 <= i < self.tables@.len() ==> (#[trigger] self.tables@[i]).1.wf()
    }

    /// A store with no tables recorded yet.
    pub fn new() -> (r: TableStore)
        ensures
            r.wf(),
            r.tables@.len() == 0,
    {
        TableStore { tables: Vec::new() }
    }

    /// Records a table under its physical base address.
    pub fn add_table(&mut self, base: u64, table: PageTable)
        requires
            old(self).wf(),
            table.wf(),
        ensures
            final(self).wf(),
            final(self).tables@ == old(self).tables@.push((base, table)),
    {
        self.tables.push((base, table));
    }

    fn find_table(&self, base: u64) -> (r: Option<&PageTable>)
        ensures
            r matches Some(t) ==> find_table_spec(self.tables@, base) == Some(*t),
            r matches Some(t) ==> exists|k: int|
                0 <= k < self.tables@.len() && (#[trigger] self.tables@[k]).1 == *t,
            r is None ==> find_table_spec(self.tables@, base) is None,
    {
        let mut i: usize = 0;
        while i < self.tables.len()
            invariant
                0 <= i <= self.tables@.len(),
                forall|k: int| 0 <= k < i ==> (#[trigger] self.tables@[k]).0 != base,
            decreases self.tables@.len() - i,
        {
            if self.tables[i].0 == base {
                proof {
                    lemma_find_table_skip(self.tables@, base, i as int);
                }
                return Some(&self.tables[i].1);
            }
            i = i + 1;
        }
        proof {
            lemma_find_table_skip(self.tables@, base, self.tables@.len() as int);
        }
        None
    }

    /// One hop of the walk, on the stored tables.
    fn step(&self, base: u64, index: u64) -> (r: Result<u64, TranslationError>)
        requires
            self.wf(),
            index < 512,
        ensures
            r == spec_step(self.tables@, base, index as int),
            r matches Ok(b) ==> b <= 0x000f_ffff_ffff_f000,
    {
        match self.find_table(base) {
            None => Err(TranslationError::NotMapped),
            Some(table) => {
                proof {
                    assert(table.wf());
                }
                let e = table.entries[index as usize];
                if !e.is_present() {
                    Err(TranslationError::NotMapped)
                } else if e.is_huge() {
                    Err(TranslationError::UnsupportedMapping)
                } else {
                    Ok(e.frame_base())
                }
            },
        }
    }

    /// Walks the four table levels for `vaddr` and returns the physical
    /// address it maps to, the not-mapped condition if some entry on the
    /// path is not present, or the unsupported-mapping condition if a
    /// large-page entry is met.
    pub fn translate_addr(&self, ctx: &TranslationContext, vaddr: VirtualAddress) -> (r: Result<
        PhysicalAddress,
        TranslationError,
    >)
        requires
            self.wf(),
            ctx.wf(),
        ensures
            spec_translate(self.tables@, ctx.spec_l4_base(), vaddr.0) matches Ok(p) ==> r == Ok::<
                PhysicalAddress,
                TranslationError,
            >(PhysicalAddress(p)),
            spec_translate(self.tables@, ctx.spec_l4_base(), vaddr.0) matches Err(e) ==> r
                == Err::<PhysicalAddress, TranslationError>(e),
    {
        let v = vaddr.0;
        let b3 = match self.step(ctx.l4_base(), p4_index(v)) {
            Err(e) => {
                return Err(e);
            },
            Ok(b) => b,
        };
        let b2 = match self.step(b3, p3_index(v)) {
            Err(e) => {
                return Err(e);
            },
            Ok(b) => b,
        };
        let b1 = match self.step(b2, p2_index(v)) {
            Err(e) => {
                return Err(e);
            },
            Ok(b) => b,
        };
        let b0 = match self.step(b1, p1_index(v)) {
            Err(e) => {
                return Err(e);
            },
            Ok(b) => b,
        };
        Ok(PhysicalAddress(b0 + page_offset(v)))
    }
}

proof fn lemma_find_table_skip(tables: Seq<(u64, PageTable)>, base: u64, i: int)
    requires
        0 <= i <= tables.len(),
        forall|k: int| 0 <= k < i ==> (#[trigger] tables[k]).0 != base,
    ensures
        find_table_spec(tables, base) == find_table_spec(tables.skip(i), base),
    decreases i,
{
    if i == 0 {
        assert(tables.skip(0) =~= tables);
    } else {
        lemma_find_table_skip(tables, base, i - 1);
        let t = tables.skip(i - 1);
        assert(t[0] == tables[i - 1]);
        assert(t.drop_first() =~= tables.skip(i));
        assert(find_table_spec(t, base) == find_table_spec(t.drop_first(), base));
    }
}

} // verus!
