//! Virtual memory: the page-table entry encoding, page tables and the
//! address spaces built from them.
use vstd::prelude::*;
use crate::hart::Hart;
use crate::memory::{PageAllocator, PAGE_SIZE};

verus! {

/// Number of bits of the offset within a page.
pub const PAGE_BITS: usize = 12;

/// Number of bits of one level's index in a virtual page number.
pub const VPN_BITS: usize = 9;

/// Number of bits of a physical frame number.
pub const PPN_BITS: usize = 44;

/// Entry is valid.
pub const PTE_V: u64 = 0x01;

/// Page is readable.
pub const PTE_R: u64 = 0x02;

/// Page is writable.
pub const PTE_W: u64 = 0x04;

/// Page is executable.
pub const PTE_X: u64 = 0x08;

/// Page is accessible from user mode.
pub const PTE_U: u64 = 0x10;

/// Mapping is global.
pub const PTE_G: u64 = 0x20;

/// Page has been accessed.
pub const PTE_A: u64 = 0x40;

/// Page has been written.
pub const PTE_D: u64 = 0x80;

/// Paging-mode tag in the top bits of the translation-root register.
pub const SATP_MODE: u64 = 0x8000_0000_0000_0000;

/// Whether any bit of `mask` is set in `bits`.
pub open spec fn flag_of(bits: u64, mask: u64) -> bool {
    bits & mask != 0
}

/// Bits 8 and 9 of an entry, which carry no meaning here.
pub open spec fn low_reserved_of(bits: u64) -> u64 {
    (bits >> 8) & 0x3
}

/// Bits 10 to 53 of an entry: the physical frame number.
pub open spec fn ppn_of(bits: u64) -> u64 {
    (bits >> 10) & 0xfff_ffff_ffff
}

/// Bits 54 to 63 of an entry, which carry no meaning here.
pub open spec fn high_reserved_of(bits: u64) -> u64 {
    bits >> 54
}

/// What a page-table entry says, field by field.
pub struct EntryView {
    pub valid: bool,
    pub readable: bool,
    pub writable: bool,
    pub executable: bool,
    pub user: bool,
    pub global: bool,
    pub accessed: bool,
    pub dirty: bool,
    pub low_reserved: u64,
    pub ppn: u64,
    pub high_reserved: u64,
}

/// One page-table entry: bit 0 valid, bit 1 readable, bit 2 writable, bit 3
/// executable, bit 4 user, bit 5 global, bit 6 accessed, bit 7 dirty, bits 10
/// to 53 the physical frame number.
#[derive(Debug, Clone, Copy)]
pub struct PageTableEntry {
    pub bits: u64,
}

impl View for PageTableEntry {
    type V = EntryView;

    open spec fn view(&self) -> EntryView {
        EntryView {
            valid: flag_of(self.bits, PTE_V),
            readable: flag_of(self.bits, PTE_R),
            writable: flag_of(self.bits, PTE_W),
            executable: flag_of(self.bits, PTE_X),
            user: flag_of(self.bits, PTE_U),
            global: flag_of(self.bits, PTE_G),
            accessed: flag_of(self.bits, PTE_A),
            dirty: flag_of(self.bits, PTE_D),
            low_reserved: low_reserved_of(self.bits),
            ppn: ppn_of(self.bits),
            high_reserved: high_reserved_of(self.bits),
        }
    }
}

/// Setting or clearing one flag bit changes that flag and nothing else.
proof fn lemma_put_flag(bits: u64, flag: u64, on: bool)
    requires
        flag == PTE_V || flag == PTE_R || flag == PTE_W || flag == PTE_X || flag == PTE_U,
    ensures
        ({
            let b = if on {
                bits | flag
            } else {
                bits & !flag
            };
            &&& flag_of(b, PTE_V) == (if flag == PTE_V { on } else { flag_of(bits, PTE_V) })
            &&& flag_of(b, PTE_R) == (if flag == PTE_R { on } else { flag_of(bits, PTE_R) })
            &&& flag_of(b, PTE_W) == (if flag == PTE_W { on } else { flag_of(bits, PTE_W) })
            &&& flag_of(b, PTE_X) == (if flag == PTE_X { on } else { flag_of(bits, PTE_X) })
            &&& flag_of(b, PTE_U) == (if flag == PTE_U { on } else { flag_of(bits, PTE_U) })
            &&& flag_of(b, PTE_G) == flag_of(bits, PTE_G)
            &&& flag_of(b, PTE_A) == flag_of(bits, PTE_A)
            &&& flag_of(b, PTE_D) == flag_of(bits, PTE_D)
            &&& low_reserved_of(b) == low_reserved_of(bits)
            &&& ppn_of(b) == ppn_of(bits)
            &&& high_reserved_of(b) == high_reserved_of(bits)
        }),
{
    let b = if on {
        bits | flag
    } else {
        bits & !flag
    };
    assert(((b & 0x01 != 0) == ((flag == 0x01 && on) || (flag != 0x01 && bits & 0x01 != 0))) && ((b
        & 0x02 != 0) == ((flag == 0x02 && on) || (flag != 0x02 && bits & 0x02 != 0))) && ((b & 0x04
        != 0) == ((flag == 0x04 && on) || (flag != 0x04 && bits & 0x04 != 0))) && ((b & 0x08 != 0)
        == ((flag == 0x08 && on) || (flag != 0x08 && bits & 0x08 != 0))) && ((b & 0x10 != 0) == ((
    flag == 0x10 && on) || (flag != 0x10 && bits & 0x10 != 0))) && ((b & 0x20 != 0) == (bits & 0x20
        != 0)) && ((b & 0x40 != 0) == (bits & 0x40 != 0)) && ((b & 0x80 != 0) == (bits & 0x80 != 0))
        && (b >> 8) & 0x3 == (bits >> 8) & 0x3 && (b >> 10) & 0xfff_ffff_ffff == (bits >> 10)
        & 0xfff_ffff_ffff && b >> 54 == bits >> 54) by (bit_vector)
        requires
            flag == 0x01 || flag == 0x02 || flag == 0x04 || flag == 0x08 || flag == 0x10,
            on ==> b == bits | flag,
            !on ==> b == bits & !flag,
    ;
}

impl PageTableEntry {
    /// The entry with every bit clear.
    pub fn new() -> (e: Self)
        ensures
            e.bits == 0,
    {
        Self { bits: 0 }
    }

    /// Whether the entry is valid.
    pub fn is_valid(&self) -> (r: bool)
        ensures
            r == self@.valid,
    {
        (self.bits & PTE_V) != 0
    }

    /// Whether the page is readable.
    pub fn is_readable(&self) -> (r: bool)
        ensures
            r == self@.readable,
    {
        (self.bits & PTE_R) != 0
    }

    /// Whether the page is writable.
    pub fn is_writable(&self) -> (r: bool)
        ensures
            r == self@.writable,
    {
        (self.bits & PTE_W) != 0
    }

    /// Whether the page is executable.
    pub fn is_executable(&self) -> (r: bool)
        ensures
            r == self@.executable,
    {
        (self.bits & PTE_X) != 0
    }

    /// Whether the page is accessible from user mode.
    pub fn is_user(&self) -> (r: bool)
        ensures
            r == self@.user,
    {
        (self.bits & PTE_U) != 0
    }

    /// The physical frame number.
    pub fn get_ppn(&self) -> (r: u64)
        ensures
            r == self@.ppn,
    {
        (self.bits >> 10) & 0xfff_ffff_ffff
    }

    /// Sets or clears the valid flag; the rest of the entry stays.
    pub fn set_valid(&mut self, valid: bool)
        ensures
            final(self).bits == (if valid {
                old(self).bits | PTE_V
            } else {
                old(self).bits & !PTE_V
            }),
            final(self)@ == (EntryView { valid: valid, ..old(self)@ }),
    {
        proof {
            lemma_put_flag(self.bits, PTE_V, valid);
        }
        self.bits = if valid {
            self.bits | PTE_V
        } else {
            self.bits & !PTE_V
        };
    }

    /// Sets or clears the readable flag; the rest of the entry stays.
    pub fn set_readable(&mut self, readable: bool)
        ensures
            final(self).bits == (if readable {
                old(self).bits | PTE_R
            } else {
                old(self).bits & !PTE_R
            }),
            final(self)@ == (EntryView { readable: readable, ..old(self)@ }),
    {
        proof {
            lemma_put_flag(self.bits, PTE_R, readable);
        }
        self.bits = if readable {
            self.bits | PTE_R
        } else {
            self.bits & !PTE_R
        };
    }

    /// Sets or clears the writable flag; the rest of the entry stays.
    pub fn set_writable(&mut self, writable: bool)
        ensures
            final(self).bits == (if writable {
                old(self).bits | PTE_W
            } else {
                old(self).bits & !PTE_W
            }),
            final(self)@ == (EntryView { writable: writable, ..old(self)@ }),
    {
        proof {
            lemma_put_flag(self.bits, PTE_W, writable);
        }
        self.bits = if writable {
            self.bits | PTE_W
        } else {
            self.bits & !PTE_W
        };
    }

    /// Sets or clears the executable flag; the rest of the entry stays.
    pub fn set_executable(&mut self, executable: bool)
        ensures
            final(self).bits == (if executable {
                old(self).bits | PTE_X
            } else {
                old(self).bits & !PTE_X
            }),
            final(self)@ == (EntryView { executable: executable, ..old(self)@ }),
    {
        proof {
            lemma_put_flag(self.bits, PTE_X, executable);
        }
        self.bits = if executable {
            self.bits | PTE_X
        } else {
            self.bits & !PTE_X
        };
    }

    /// Sets or clears the user flag; the rest of the entry stays.
    pub fn set_user(&mut self, user: bool)
        ensures
            final(self).bits == (if user {
                old(self).bits | PTE_U
            } else {
                old(self).bits & !PTE_U
            }),
            final(self)@ == (EntryView { user: user, ..old(self)@ }),
    {
        proof {
            lemma_put_flag(self.bits, PTE_U, user);
        }
        self.bits = if user {
            self.bits | PTE_U
        } else {
            self.bits & !PTE_U
        };
    }

    /// Replaces everything above bit 9 by `ppn` shifted into place. The
    /// flags stay; a frame number of more than 44 bits spills into the bits
    /// above the frame-number field.
    pub fn set_ppn(&mut self, ppn: u64)
        ensures
            final(self).bits == (old(self).bits & 0x3ff) | (ppn << 10),
            final(self)@ == (EntryView {
                ppn: ppn & 0xfff_ffff_ffff,
                high_reserved: (ppn >> 44) & 0x3ff,
                ..old(self)@
            }),
            ppn < 0x1000_0000_0000 ==> final(self)@.ppn == ppn && final(self)@.high_reserved == 0,
    {
        let ghost before = self.bits;
        self.bits = (self.bits & 0x3ff) | (ppn << 10);
        let ghost after = self.bits;
        assert((after & 0x01 != 0) == (before & 0x01 != 0) && (after & 0x02 != 0) == (before & 0x02
            != 0) && (after & 0x04 != 0) == (before & 0x04 != 0) && (after & 0x08 != 0) == (before
            & 0x08 != 0) && (after & 0x10 != 0) == (before & 0x10 != 0) && (after & 0x20 != 0) == (
        before & 0x20 != 0) && (after & 0x40 != 0) == (before & 0x40 != 0) && (after & 0x80 != 0)
            == (before & 0x80 != 0) && (after >> 8) & 0x3 == (before >> 8) & 0x3 && (after >> 10)
            & 0xfff_ffff_ffff == ppn & 0xfff_ffff_ffff && after >> 54 == (ppn >> 44) & 0x3ff && (ppn
            < 0x1000_0000_0000 ==> ppn & 0xfff_ffff_ffff == ppn && (ppn >> 44) & 0x3ff == 0))
            by (bit_vector)
            requires
                after == (before & 0x3ff) | (ppn << 10),
        ;
    }

    /// Adds the flag bits of `flags` to the entry and clears everything above
    /// bit 9, the frame number included.
    pub fn set_flags(&mut self, flags: u64)
        ensures
            final(self).bits == (old(self).bits & 0x3ff) | (flags & 0xff),
            final(self)@ == (EntryView {
                valid: old(self)@.valid || flag_of(flags, PTE_V),
                readable: old(self)@.readable || flag_of(flags, PTE_R),
                writable: old(self)@.writable || flag_of(flags, PTE_W),
                executable: old(self)@.executable || flag_of(flags, PTE_X),
                user: old(self)@.user || flag_of(flags, PTE_U),
                global: old(self)@.global || flag_of(flags, PTE_G),
                accessed: old(self)@.accessed || flag_of(flags, PTE_A),
                dirty: old(self)@.dirty || flag_of(flags, PTE_D),
                low_reserved: old(self)@.low_reserved,
                ppn: 0,
                high_reserved: 0,
            }),
    {
        let ghost before = self.bits;
        self.bits = (self.bits & 0x3ff) | (flags & 0xff);
        let ghost after = self.bits;
        assert((after & 0x01 != 0) == (before & 0x01 != 0 || flags & 0x01 != 0) && (after & 0x02
            != 0) == (before & 0x02 != 0 || flags & 0x02 != 0) && (after & 0x04 != 0) == (before
            & 0x04 != 0 || flags & 0x04 != 0) && (after & 0x08 != 0) == (before & 0x08 != 0 || flags
            & 0x08 != 0) && (after & 0x10 != 0) == (before & 0x10 != 0 || flags & 0x10 != 0) && (
        after & 0x20 != 0) == (before & 0x20 != 0 || flags & 0x20 != 0) && (after & 0x40 != 0) == (
        before & 0x40 != 0 || flags & 0x40 != 0) && (after & 0x80 != 0) == (before & 0x80 != 0
            || flags & 0x80 != 0) && (after >> 8) & 0x3 == (before >> 8) & 0x3 && (after >> 10)
            & 0xfff_ffff_ffff == 0 && after >> 54 == 0) by (bit_vector)
            requires
                after == (before & 0x3ff) | (flags & 0xff),
        ;
    }

    /// The entry that maps a page to frame `ppn`: valid, with the flag bits
    /// of `flags` and the frame number `ppn`.
    pub fn mapping(ppn: u64, flags: u64) -> (e: Self)
        ensures
            e.bits == 0x01 | (flags & 0xff) | (ppn << 10),
            e@ == (EntryView {
                valid: true,
                readable: flag_of(flags, PTE_R),
                writable: flag_of(flags, PTE_W),
                executable: flag_of(flags, PTE_X),
                user: flag_of(flags, PTE_U),
                global: flag_of(flags, PTE_G),
                accessed: flag_of(flags, PTE_A),
                dirty: flag_of(flags, PTE_D),
                low_reserved: 0,
                ppn: ppn & 0xfff_ffff_ffff,
                high_reserved: (ppn >> 44) & 0x3ff,
            }),
            ppn < 0x1000_0000_0000 ==> e@.ppn == ppn && e@.high_reserved == 0,
    {
        let mut pte = PageTableEntry::new();
        pte.set_valid(true);
        let ghost b1 = pte.bits;
        pte.set_flags(flags);
        let ghost b2 = pte.bits;
        pte.set_ppn(ppn);
        let ghost bits = pte.bits;
        assert(bits == 0x01 | (flags & 0xff) | (ppn << 10) && (bits >> 8) & 0x3 == 0) by (bit_vector)
            requires
                b1 == 0u64 | 0x01,
                b2 == (b1 & 0x3ff) | (flags & 0xff),
                bits == (b2 & 0x3ff) | (ppn << 10),
        ;
        assert(!flag_of(0u64, PTE_R) && !flag_of(0u64, PTE_W) && !flag_of(0u64, PTE_X) && !flag_of(
            0u64,
            PTE_U,
        ) && !flag_of(0u64, PTE_G) && !flag_of(0u64, PTE_A) && !flag_of(0u64, PTE_D)) by {
            assert(0u64 & 0x02 == 0 && 0u64 & 0x04 == 0 && 0u64 & 0x08 == 0 && 0u64 & 0x10 == 0
                && 0u64 & 0x20 == 0 && 0u64 & 0x40 == 0 && 0u64 & 0x80 == 0) by (bit_vector);
        }
        pte
    }
}

/// One page table: 512 entries and the number of the frame that backs it.
pub struct PageTable {
    pub root_ppn: u64,
    pub entries: [PageTableEntry; 512],
}

impl PageTable {
    /// A table with every entry clear, backed by the lowest free frame of
    /// `pages`. Fails, changing nothing, when no frame is left.
    pub fn new(pages: &mut PageAllocator) -> (r: Option<Self>)
        requires
            old(pages).wf(),
        ensures
            final(pages).wf(),
            final(pages).total() == old(pages).total(),
            r is None <==> old(pages).is_full(),
            r is None ==> *final(pages) == *old(pages),
            r matches Some(table) ==> {
                &&& 0 <= table.root_ppn < old(pages).capacity()
                &&& !old(pages).allocated().contains(table.root_ppn as int)
                &&& forall|q: int| 0 <= q < table.root_ppn ==> old(pages).allocated().contains(q)
                &&& final(pages).allocated() == old(pages).allocated().insert(
                    table.root_ppn as int,
                )
                &&& final(pages).free() == old(pages).free() - 1
                &&& forall|i: int| 0 <= i < 512 ==> (#[trigger] table.entries[i]).bits == 0
            },
    {
        match crate::memory::alloc_page(pages) {
            Some(page) => {
                let root_ppn: u64 = (page / PAGE_SIZE) as u64;
                Some(Self { root_ppn, entries: [PageTableEntry { bits: 0 };512] })
            },
            None => None,
        }
    }

    /// Accepts a request to map virtual page `vpn` to frame `ppn`. The entry
    /// for the request is `PageTableEntry::mapping(ppn, flags)`; writing it
    /// into the table is not part of this core, so the table stays as it is.
    pub fn map_page(&mut self, vpn: u64, ppn: u64, flags: u64) -> (ok: bool)
        ensures
            ok,
            *final(self) == *old(self),
    {
        let _vpn_l2: u64 = (vpn >> 18) & 0x1ff;
        let _vpn_l1: u64 = (vpn >> 9) & 0x1ff;
        let _vpn_l0: u64 = vpn & 0x1ff;
        let _pte = PageTableEntry::mapping(ppn, flags);
        true
    }

    /// Accepts a request to unmap virtual page `vpn`; the table stays as it
    /// is.
    pub fn unmap_page(&mut self, vpn: u64) -> (ok: bool)
        ensures
            ok,
            *final(self) == *old(self),
    {
        true
    }

    /// The value of the translation-root register that selects this table: the
    /// paging-mode tag together with the backing frame's number.
    pub fn get_satp(&self) -> (satp: u64)
        ensures
            satp == SATP_MODE | self.root_ppn,
    {
        assert(8u64 << 60 == 0x8000_0000_0000_0000u64) by (bit_vector);
        (8u64 << 60) | self.root_ppn
    }
}

/// The address spaces: the kernel's, made at boot, and one per user
/// address space made since, each known by its index.
pub struct VMManager {
    pub kernel_page_table: PageTable,
    pub user_page_tables: Vec<PageTable>,
}

impl VMManager {
    /// A manager with a fresh kernel table and no user tables. Fails,
    /// changing nothing, when no frame is left for the kernel table.
    pub fn new(pages: &mut PageAllocator) -> (r: Option<Self>)
        requires
            old(pages).wf(),
        ensures
            final(pages).wf(),
            final(pages).total() == old(pages).total(),
            r is None <==> old(pages).is_full(),
            r is None ==> *final(pages) == *old(pages),
            r matches Some(vm) ==> {
                &&& vm.user_page_tables@.len() == 0
                &&& 0 <= vm.kernel_page_table.root_ppn < old(pages).capacity()
                &&& !old(pages).allocated().contains(vm.kernel_page_table.root_ppn as int)
                &&& forall|q: int|
                    0 <= q < vm.kernel_page_table.root_ppn ==> old(pages).allocated().contains(q)
                &&& final(pages).allocated() == old(pages).allocated().insert(
                    vm.kernel_page_table.root_ppn as int,
                )
                &&& final(pages).free() == old(pages).free() - 1
                &&& forall|i: int|
                    0 <= i < 512 ==> (#[trigger] vm.kernel_page_table.entries[i]).bits == 0
            },
    {
        match PageTable::new(pages) {
            Some(kernel_pt) => Some(
                Self { kernel_page_table: kernel_pt, user_page_tables: Vec::new() },
            ),
            None => None,
        }
    }

    /// Makes a new user address space and returns its index. Fails, changing
    /// nothing, when no frame is left for its table.
    pub fn create_user_page_table(&mut self, pages: &mut PageAllocator) -> (r: Option<usize>)
        requires
            old(pages).wf(),
        ensures
            final(pages).wf(),
            final(pages).total() == old(pages).total(),
            final(self).kernel_page_table == old(self).kernel_page_table,
            r is None <==> old(pages).is_full(),
            r is None ==> *final(pages) == *old(pages) && *final(self) == *old(self),
            r matches Some(id) ==> {
                let table = final(self).user_page_tables@[id as int];
                &&& id == old(self).user_page_tables@.len()
                &&& final(self).user_page_tables@ == old(self).user_page_tables@.push(table)
                &&& 0 <= table.root_ppn < old(pages).capacity()
                &&& !old(pages).allocated().contains(table.root_ppn as int)
                &&& final(pages).allocated() == old(pages).allocated().insert(
                    table.root_ppn as int,
                )
                &&& final(pages).free() == old(pages).free() - 1
                &&& forall|i: int| 0 <= i < 512 ==> (#[trigger] table.entries[i]).bits == 0
            },
    {
        match PageTable::new(pages) {
            Some(user_pt) => {
                let id: usize = self.user_page_tables.len();
                self.user_page_tables.push(user_pt);
                Some(id)
            },
            None => None,
        }
    }

    /// The user address space with index `id`, if there is one.
    pub fn get_user_page_table(&mut self, id: usize) -> (r: Option<&mut PageTable>)
        ensures
            r is Some <==> id < old(self).user_page_tables@.len(),
            r is None ==> *final(self) == *old(self),
            r matches Some(table) ==> {
                &&& *table == old(self).user_page_tables@[id as int]
                &&& final(self).kernel_page_table == old(self).kernel_page_table
                &&& final(self).user_page_tables@ == old(self).user_page_tables@.update(
                    id as int,
                    *final(table),
                )
            },
    {
        if id < self.user_page_tables.len() {
            Some(&mut self.user_page_tables[id])
        } else {
            None
        }
    }

    /// Makes the kernel's address space the live one: its translation root
    /// goes into the translation-root register, and the translation cache is
    /// marked for invalidation.
    pub fn switch_to_kernel(&self, hart: &mut Hart)
        ensures
            *final(hart) == (Hart {
                satp: SATP_MODE | self.kernel_page_table.root_ppn,
                fence_pending: true,
                ..*old(hart)
            }),
    {
        hart.satp = self.kernel_page_table.get_satp();
        hart.fence_pending = true;
    }

    /// Makes user address space `page_table_id` the live one, as
    /// `switch_to_kernel` does for the kernel's. Does nothing when there is no
    /// such address space.
    pub fn switch_to_user(&self, hart: &mut Hart, page_table_id: usize)
        ensures
            page_table_id < self.user_page_tables@.len() ==> *final(hart) == (Hart {
                satp: SATP_MODE | self.user_page_tables@[page_table_id as int].root_ppn,
                fence_pending: true,
                ..*old(hart)
            }),
            page_table_id >= self.user_page_tables@.len() ==> *final(hart) == *old(hart),
    {
        if page_table_id < self.user_page_tables.len() {
            hart.satp = self.user_page_tables[page_table_id].get_satp();
            hart.fence_pending = true;
        }
    }
}

/// Makes the virtual memory manager and stores it in `slot`. Fails, changing
/// nothing, when no frame is left for the kernel table.
pub fn init_vm(slot: &mut Option<VMManager>, pages: &mut PageAllocator) -> (ok: bool)
    requires
        old(pages).wf(),
    ensures
        final(pages).wf(),
        final(pages).total() == old(pages).total(),
        ok <==> !old(pages).is_full(),
        !ok ==> *final(pages) == *old(pages) && *final(slot) == *old(slot),
        ok ==> {
            &&& *final(slot) matches Some(vm)
            &&& vm.user_page_tables@.len() == 0
            &&& 0 <= vm.kernel_page_table.root_ppn < old(pages).capacity()
            &&& !old(pages).allocated().contains(vm.kernel_page_table.root_ppn as int)
            &&& forall|q: int|
                0 <= q < vm.kernel_page_table.root_ppn ==> old(pages).allocated().contains(q)
            &&& final(pages).allocated() == old(pages).allocated().insert(
                vm.kernel_page_table.root_ppn as int,
            )
            &&& final(pages).free() == old(pages).free() - 1
        },
{
    match VMManager::new(pages) {
        Some(vm_manager) => {
            *slot = Some(vm_manager);
            true
        },
        None => false,
    }
}

/// The manager in `slot`, if one has been made.
pub fn get_vm_manager(slot: &mut Option<VMManager>) -> (r: Option<&mut VMManager>)
    ensures
        r is Some <==> *old(slot) is Some,
        r is None ==> *final(slot) == *old(slot),
        r matches Some(vm) ==> *vm == old(slot)->0 && *final(slot) == Some(*final(vm)),
{
    match slot {
        Some(vm) => Some(vm),
        None => None,
    }
}

/// Makes a new user address space in the manager in `slot` and returns its
/// index. Fails, changing nothing, when there is no manager or no frame is
/// left.
pub fn create_user_page_table(slot: &mut Option<VMManager>, pages: &mut PageAllocator) -> (r:
    Option<usize>)
    requires
        old(pages).wf(),
    ensures
        final(pages).wf(),
        final(pages).total() == old(pages).total(),
        r is Some <==> *old(slot) is Some && !old(pages).is_full(),
        r is None ==> *final(pages) == *old(pages) && *final(slot) == *old(slot),
        r matches Some(id) ==> {
            let before = old(slot)->0;
            let after = final(slot)->0;
            let table = after.user_page_tables@[id as int];
            &&& *final(slot) is Some
            &&& after.kernel_page_table == before.kernel_page_table
            &&& id == before.user_page_tables@.len()
            &&& after.user_page_tables@ == before.user_page_tables@.push(table)
            &&& 0 <= table.root_ppn < old(pages).capacity()
            &&& !old(pages).allocated().contains(table.root_ppn as int)
            &&& final(pages).allocated() == old(pages).allocated().insert(table.root_ppn as int)
            &&& final(pages).free() == old(pages).free() - 1
        },
{
    match slot {
        Some(vm_manager) => vm_manager.create_user_page_table(pages),
        None => None,
    }
}

/// Makes the kernel's address space the live one; does nothing when there
/// is no manager.
pub fn switch_to_kernel(slot: &Option<VMManager>, hart: &mut Hart)
    ensures
        slot matches Some(vm) ==> *final(hart) == (Hart {
            satp: SATP_MODE | vm.kernel_page_table.root_ppn,
            fence_pending: true,
            ..*old(hart)
        }),
        slot is None ==> *final(hart) == *old(hart),
{
    match slot {
        Some(vm_manager) => vm_manager.switch_to_kernel(hart),
        None => {},
    }
}

/// Makes user address space `page_table_id` the live one; does nothing when
/// there is no manager or no such address space.
pub fn switch_to_user(slot: &Option<VMManager>, hart: &mut Hart, page_table_id: usize)
    ensures
        slot is Some && page_table_id < slot->0.user_page_tables@.len() ==> *final(hart) == (Hart {
            satp: SATP_MODE | slot->0.user_page_tables@[page_table_id as int].root_ppn,
            fence_pending: true,
            ..*old(hart)
        }),
        !(slot is Some && page_table_id < slot->0.user_page_tables@.len()) ==> *final(hart) == *old(
            hart,
        ),
{
    match slot {
        Some(vm_manager) => vm_manager.switch_to_user(hart, page_table_id),
        None => {},
    }
}

} // verus!
