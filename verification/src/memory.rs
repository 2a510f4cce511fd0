//! Physical memory: a bitmap frame allocator over a fixed pool and a linear
//! heap allocator that never reclaims.
use vstd::prelude::*;
use vstd::set_lib::*;
use vstd::arithmetic::div_mod::*;

verus! {

/// Size of one frame in bytes.
pub const PAGE_SIZE: usize = 4096;

/// Size of the kernel heap region in bytes.
pub const KERNEL_HEAP_SIZE: usize = 1024 * 1024;

/// Number of frames the bitmap can track.
pub const MAX_PAGES: usize = 256;

/// Physical address at which the kernel image starts.
pub const KERNEL_START: usize = 0x80200000;

/// Whether bit `i` of `word` is set.
pub open spec fn bit_is_set(word: u64, i: int) -> bool {
    0 <= i < 64 && (word >> (i as u64)) & 1u64 == 1u64
}

proof fn lemma_zero_has_no_bits()
    ensures
        forall|j: int| !bit_is_set(0u64, j),
{
    assert forall|j: int| !bit_is_set(0u64, j) by {
        if 0 <= j < 64 {
            let b = j as u64;
            assert((0u64 >> b) & 1u64 == 0u64) by (bit_vector);
        }
    }
}

proof fn lemma_full_word_has_all_bits(word: u64)
    requires
        word == u64::MAX,
    ensures
        forall|j: int| 0 <= j < 64 ==> bit_is_set(word, j),
{
    assert forall|j: int| 0 <= j < 64 implies bit_is_set(word, j) by {
        let b = j as u64;
        assert((0xffff_ffff_ffff_ffffu64 >> b) & 1u64 == 1u64) by (bit_vector)
            requires
                b < 64,
        ;
    }
}

proof fn lemma_trailing_ones(word: u64)
    requires
        word != u64::MAX,
    ensures
        word.trailing_ones() < 64,
        !bit_is_set(word, word.trailing_ones() as int),
        forall|j: int| 0 <= j < word.trailing_ones() ==> bit_is_set(word, j),
{
    vstd::std_specs::bits::axiom_u64_trailing_ones(word);
    let t = word.trailing_ones();
    assert forall|j: int| 0 <= j < t implies bit_is_set(word, j) by {
        let b = j as u64;
        assert((word >> b) & 1u64 == 1u64);
    }
}

proof fn lemma_set_bit(word: u64, b: int)
    requires
        0 <= b < 64,
    ensures
        forall|j: int|
            #[trigger] bit_is_set(word | (1u64 << (b as u64)), j) <==> (j == b || bit_is_set(
                word,
                j,
            )),
{
    let bb = b as u64;
    assert forall|j: int|
        #[trigger] bit_is_set(word | (1u64 << bb), j) <==> (j == b || bit_is_set(word, j)) by {
        if 0 <= j < 64 {
            let jj = j as u64;
            assert(((word | (1u64 << bb)) >> jj) & 1u64 == 1u64 <==> (jj == bb || (word >> jj)
                & 1u64 == 1u64)) by (bit_vector)
                requires
                    jj < 64,
                    bb < 64,
            ;
        }
    }
}

proof fn lemma_clear_bit(word: u64, b: int)
    requires
        0 <= b < 64,
    ensures
        forall|j: int|
            #[trigger] bit_is_set(word & !(1u64 << (b as u64)), j) <==> (j != b && bit_is_set(
                word,
                j,
            )),
{
    let bb = b as u64;
    assert forall|j: int|
        #[trigger] bit_is_set(word & !(1u64 << bb), j) <==> (j != b && bit_is_set(word, j)) by {
        if 0 <= j < 64 {
            let jj = j as u64;
            assert(((word & !(1u64 << bb)) >> jj) & 1u64 == 1u64 <==> (jj != bb && (word >> jj)
                & 1u64 == 1u64)) by (bit_vector)
                requires
                    jj < 64,
                    bb < 64,
            ;
        }
    }
}

/// The index of the frame that holds address `addr`.
pub open spec fn frame_of(addr: usize) -> int {
    addr as int / PAGE_SIZE as int
}

/// Bitmap frame allocator: one bit per frame, set meaning allocated.
pub struct PageAllocator {
    bitmap: [u64; 4],
    total_pages: usize,
    free_pages: usize,
}

impl PageAllocator {
    /// Whether frame `page` is marked allocated in the bitmap.
    pub closed spec fn is_allocated(&self, page: int) -> bool {
        0 <= page < MAX_PAGES && bit_is_set(self.bitmap[page / 64], page % 64)
    }

    /// The number of frames in the pool.
    pub closed spec fn total(&self) -> nat {
        self.total_pages as nat
    }

    /// The number of frames that are not allocated.
    pub closed spec fn free(&self) -> nat {
        self.free_pages as nat
    }

    /// The frames that are live allocations.
    pub open spec fn allocated(&self) -> Set<int> {
        Set::new(|p: int| self.is_allocated(p))
    }

    /// The number of frames that can ever be handed out: the pool's size,
    /// bounded by what the bitmap can track.
    pub open spec fn capacity(&self) -> int {
        if self.total() <= MAX_PAGES {
            self.total() as int
        } else {
            MAX_PAGES as int
        }
    }

    /// Whether every frame that can be handed out is allocated.
    pub open spec fn is_full(&self) -> bool {
        forall|p: int| 0 <= p < self.capacity() ==> self.allocated().contains(p)
    }

    /// The allocator's invariant: only frames of the pool are allocated, and
    /// the free count is the pool's size less the number of live allocations.
    pub open spec fn wf(&self) -> bool {
        &&& forall|p: int| self.allocated().contains(p) ==> 0 <= p < self.capacity()
        &&& self.allocated().finite()
        &&& self.free() + self.allocated().len() == self.total()
    }

    /// In a well-formed allocator whose pool the bitmap covers, no frame is
    /// free exactly when every frame of the pool is allocated.
    pub proof fn lemma_full_iff_no_free(&self)
        requires
            self.wf(),
            self.total() <= MAX_PAGES,
        ensures
            self.is_full() <==> self.free() == 0,
    {
        let pool = set_int_range(0, self.capacity());
        lemma_int_range(0, self.capacity());
        assert(self.allocated().subset_of(pool));
        if self.is_full() {
            assert(self.allocated() =~= pool);
        }
        if self.free() == 0 {
            lemma_subset_equality(self.allocated(), pool);
            assert forall|p: int| 0 <= p < self.capacity() implies self.is_allocated(p) by {
                assert(pool.contains(p));
            }
        }
    }

    /// An allocator over an empty pool.
    pub fn new() -> (r: Self)
        ensures
            r.wf(),
            r.total() == 0,
            r.free() == 0,
            r.allocated() == Set::<int>::empty(),
    {
        let r = Self { bitmap: [0; 4], total_pages: 0, free_pages: 0 };
        proof {
            lemma_zero_has_no_bits();
            assert(r.allocated() =~= Set::<int>::empty());
        }
        r
    }

    /// Starts managing a pool of `size` bytes, with every frame free. Fails,
    /// changing nothing, when the pool holds less than one frame.
    pub fn init(&mut self, _start_addr: usize, size: usize) -> (ok: bool)
        ensures
            ok <==> size >= PAGE_SIZE,
            ok ==> final(self).wf(),
            ok ==> final(self).total() == size as int / PAGE_SIZE as int,
            ok ==> final(self).free() == final(self).total(),
            ok ==> final(self).allocated() == Set::<int>::empty(),
            !ok ==> *final(self) == *old(self),
    {
        if size < PAGE_SIZE {
            return false;
        }
        self.total_pages = size / PAGE_SIZE;
        self.free_pages = self.total_pages;
        self.bitmap = [0; 4];
        proof {
            lemma_zero_has_no_bits();
            assert(self.allocated() =~= Set::<int>::empty());
        }
        true
    }

    /// Allocates the lowest free frame of the pool and returns its base
    /// address, or returns `None`, changing nothing, when every frame of the
    /// pool is allocated.
    pub fn alloc_page(&mut self) -> (r: Option<usize>)
        requires
            old(self).wf(),
        ensures
            final(self).wf(),
            final(self).total() == old(self).total(),
            r is None <==> old(self).is_full(),
            old(self).total() <= MAX_PAGES ==> (r is None <==> old(self).free() == 0),
            r is None ==> *final(self) == *old(self),
            r matches Some(addr) ==> {
                let p = frame_of(addr);
                &&& addr == p * PAGE_SIZE
                &&& 0 <= p < old(self).capacity()
                &&& !old(self).allocated().contains(p)
                &&& forall|q: int| 0 <= q < p ==> old(self).allocated().contains(q)
                &&& final(self).allocated() == old(self).allocated().insert(p)
                &&& final(self).free() == old(self).free() - 1
            },
    {
        proof {
            if self.total() <= MAX_PAGES {
                self.lemma_full_iff_no_free();
            }
        }
        let mut word_idx: usize = 0;
        while word_idx < 4
            invariant
                word_idx <= 4,
                *self == *old(self),
                self.wf(),
                self.total() <= MAX_PAGES ==> (self.is_full() <==> self.free() == 0),
                forall|q: int| 0 <= q < word_idx * 64 ==> self.is_allocated(q),
            decreases 4 - word_idx,
        {
            let word: u64 = self.bitmap[word_idx];
            if word != u64::MAX {
                proof {
                    lemma_trailing_ones(word);
                }
                let bit_idx: usize = word.trailing_ones() as usize;
                let page_idx: usize = word_idx * 64 + bit_idx;
                assert(page_idx as int / 64 == word_idx && page_idx as int % 64 == bit_idx);
                assert(!self.is_allocated(page_idx as int));
                assert forall|q: int| 0 <= q < page_idx implies self.is_allocated(q) by {
                    if q >= word_idx * 64 {
                        assert(q / 64 == word_idx && q % 64 < bit_idx);
                    }
                }
                if page_idx >= self.total_pages {
                    assert forall|p: int| 0 <= p < self.capacity() implies self.is_allocated(
                        p,
                    ) by {}
                    return None;
                }
                proof {
                    lemma_set_bit(word, bit_idx as int);
                    lemma_int_range(0, self.capacity());
                    let rest = set_int_range(0, self.capacity()).remove(page_idx as int);
                    assert(self.allocated().subset_of(rest));
                    lemma_len_subset(self.allocated(), rest);
                }
                self.bitmap[word_idx] = word | (1u64 << bit_idx);
                self.free_pages = self.free_pages - 1;
                proof {
                    assert forall|q: int|
                        self.is_allocated(q) <==> (q == page_idx || old(self).allocated().contains(q,
                        )) by {
                        if 0 <= q < MAX_PAGES {
                            if q / 64 == word_idx as int {
                                assert(bit_is_set(self.bitmap[q / 64], q % 64) <==> (q % 64
                                    == bit_idx || bit_is_set(word, q % 64)));
                            } else {
                                assert(self.bitmap[q / 64] == old(self).bitmap[q / 64]);
                            }
                        }
                    }
                    assert(self.allocated() =~= old(self).allocated().insert(page_idx as int));
                }
                return Some(page_idx * PAGE_SIZE);
            }
            proof {
                lemma_full_word_has_all_bits(word);
                assert forall|q: int| 0 <= q < (word_idx + 1) * 64 implies self.is_allocated(
                    q,
                ) by {
                    if q >= word_idx * 64 {
                        assert(q / 64 == word_idx);
                    }
                }
            }
            word_idx = word_idx + 1;
        }
        proof {
            assert(self.is_allocated(MAX_PAGES - 1));
        }
        None
    }

    /// Returns the frame that holds `addr` to the pool. The frame must be a
    /// live allocation; an address beyond what the bitmap tracks is ignored.
    pub fn dealloc_page(&mut self, addr: usize)
        requires
            old(self).wf(),
            frame_of(addr) < MAX_PAGES ==> old(self).allocated().contains(frame_of(addr)),
        ensures
            final(self).wf(),
            final(self).total() == old(self).total(),
            frame_of(addr) >= MAX_PAGES ==> *final(self) == *old(self),
            frame_of(addr) < MAX_PAGES ==> {
                &&& final(self).allocated() == old(self).allocated().remove(frame_of(addr))
                &&& final(self).free() == old(self).free() + 1
            },
    {
        let page_idx: usize = addr / PAGE_SIZE;
        let word_idx: usize = page_idx / 64;
        let bit_idx: usize = page_idx % 64;
        if word_idx < 4 {
            let word: u64 = self.bitmap[word_idx];
            proof {
                lemma_clear_bit(word, bit_idx as int);
                assert(self.allocated().contains(page_idx as int));
            }
            self.bitmap[word_idx] = word & !(1u64 << bit_idx);
            self.free_pages = self.free_pages + 1;
            proof {
                assert forall|q: int|
                    self.is_allocated(q) <==> (q != page_idx && old(self).allocated().contains(q)) by {
                    if 0 <= q < MAX_PAGES {
                        if q / 64 == word_idx as int {
                            assert(bit_is_set(self.bitmap[q / 64], q % 64) <==> (q % 64
                                != bit_idx && bit_is_set(word, q % 64)));
                        } else {
                            assert(self.bitmap[q / 64] == old(self).bitmap[q / 64]);
                        }
                    }
                }
                assert(self.allocated() =~= old(self).allocated().remove(page_idx as int));
            }
        }
    }

    /// The number of free frames.
    pub fn get_free_pages(&self) -> (n: usize)
        ensures
            n == self.free(),
    {
        self.free_pages
    }
}

/// The least multiple of `align` that is not below `addr`.
pub open spec fn align_up(addr: int, align: int) -> int {
    if addr % align == 0 {
        addr
    } else {
        addr + (align - addr % align)
    }
}

/// `align_up` yields a multiple of the alignment, at or above the address
/// and less than one alignment away from it.
pub proof fn lemma_align_up(addr: int, align: int)
    requires
        addr >= 0,
        align > 0,
    ensures
        align_up(addr, align) % align == 0,
        addr <= align_up(addr, align) < addr + align,
{
    lemma_fundamental_div_mod(addr, align);
    lemma_mod_multiples_basic(addr / align + 1, align);
    assert((addr / align + 1) * align == align * (addr / align) + align) by (nonlinear_arith);
}

/// Linear heap allocator: a cursor that only ever advances through a region.
pub struct BumpAllocator {
    heap_start: usize,
    heap_end: usize,
    next: usize,
}

impl BumpAllocator {
    /// First address of the region.
    pub closed spec fn start(&self) -> int {
        self.heap_start as int
    }

    /// First address past the region.
    pub closed spec fn end(&self) -> int {
        self.heap_end as int
    }

    /// First address that has not been handed out.
    pub closed spec fn cursor(&self) -> int {
        self.next as int
    }

    /// The number of bytes between the region's start and the cursor.
    pub open spec fn used(&self) -> int {
        self.cursor() - self.start()
    }

    /// The allocator's invariant: the cursor lies within the region.
    pub open spec fn wf(&self) -> bool {
        self.start() <= self.cursor() <= self.end()
    }

    /// Whether a request of `size` bytes aligned to `align` still fits.
    pub open spec fn fits(&self, size: usize, align: usize) -> bool {
        align_up(self.cursor(), align as int) + size <= self.end()
    }

    /// An allocator over an empty region at address zero.
    pub fn new() -> (r: Self)
        ensures
            r.wf(),
            r.start() == 0,
            r.end() == 0,
            r.cursor() == 0,
    {
        Self { heap_start: 0, heap_end: 0, next: 0 }
    }

    /// Starts managing the `size` bytes at `start`, with nothing handed out.
    /// Fails, changing nothing, when the region is empty.
    pub fn init(&mut self, start: usize, size: usize) -> (ok: bool)
        requires
            start + size <= usize::MAX,
        ensures
            ok <==> size != 0,
            ok ==> final(self).wf(),
            ok ==> final(self).start() == start,
            ok ==> final(self).end() == start + size,
            ok ==> final(self).cursor() == start,
            !ok ==> *final(self) == *old(self),
    {
        if size == 0 {
            return false;
        }
        self.heap_start = start;
        self.heap_end = start + size;
        self.next = start;
        true
    }

    /// Hands out `size` bytes at the least multiple of `align` at or above the
    /// cursor and moves the cursor past them. Fails, changing nothing, when
    /// the region cannot hold them.
    pub fn allocate(&mut self, size: usize, align: usize) -> (r: Result<usize, ()>)
        requires
            old(self).wf(),
            align > 0,
        ensures
            final(self).wf(),
            final(self).start() == old(self).start(),
            final(self).end() == old(self).end(),
            final(self).cursor() >= old(self).cursor(),
            final(self).used() >= old(self).used(),
            r is Ok <==> old(self).fits(size, align),
            r is Err ==> *final(self) == *old(self),
            r matches Ok(addr) ==> {
                &&& addr == align_up(old(self).cursor(), align as int)
                &&& addr as int % align as int == 0
                &&& old(self).cursor() <= addr < old(self).cursor() + align
                &&& final(self).cursor() == addr + size
            },
    {
        proof {
            lemma_align_up(self.next as int, align as int);
        }
        let rem: usize = self.next % align;
        let pad: usize = if rem == 0 {
            0
        } else {
            align - rem
        };
        if pad > self.heap_end - self.next {
            return Err(());
        }
        let aligned_next: usize = self.next + pad;
        if size > self.heap_end - aligned_next {
            return Err(());
        }
        self.next = aligned_next + size;
        Ok(aligned_next)
    }

    /// The number of bytes between the region's start and the cursor.
    pub fn get_used_bytes(&self) -> (n: usize)
        requires
            self.wf(),
        ensures
            n == self.used(),
    {
        self.next - self.heap_start
    }

    /// Two requests served by one heap never overlap: whatever is handed out
    /// once the cursor has passed an earlier allocation starts at or after
    /// that allocation's end.
    pub proof fn lemma_allocations_disjoint(
        &self,
        size: usize,
        align: usize,
        later: &BumpAllocator,
        later_align: usize,
    )
        requires
            self.wf(),
            align > 0,
            later_align > 0,
            later.cursor() >= align_up(self.cursor(), align as int) + size,
        ensures
            align_up(later.cursor(), later_align as int) >= align_up(
                self.cursor(),
                align as int,
            ) + size,
    {
        lemma_align_up(later.cursor(), later_align as int);
    }
}

/// The kernel's general-purpose allocator: a front for the heap allocator
/// that reports failure as the null address and never frees.
pub struct KernelAllocator;

impl KernelAllocator {
    /// Serves a request from `heap`, returning the address handed out, or
    /// zero when the heap cannot hold the request.
    pub fn allocate(&self, heap: &mut BumpAllocator, size: usize, align: usize) -> (addr: usize)
        requires
            old(heap).wf(),
            align > 0,
        ensures
            final(heap).wf(),
            final(heap).start() == old(heap).start(),
            final(heap).end() == old(heap).end(),
            old(heap).fits(size, align) ==> {
                &&& addr == align_up(old(heap).cursor(), align as int)
                &&& final(heap).cursor() == addr + size
            },
            !old(heap).fits(size, align) ==> addr == 0 && *final(heap) == *old(heap),
    {
        match heap.allocate(size, align) {
            Ok(addr) => addr,
            Err(_) => 0,
        }
    }

    /// Releases nothing: the heap never reclaims.
    pub fn dealloc(&self, heap: &mut BumpAllocator, _addr: usize, _size: usize, _align: usize)
        ensures
            *final(heap) == *old(heap),
    {
    }
}

/// Brings up both allocators over the region from `heap_start` up to
/// `heap_end`. Fails, changing nothing, when the region holds less than one
/// frame.
pub fn init_memory(
    pages: &mut PageAllocator,
    heap: &mut BumpAllocator,
    heap_start: usize,
    heap_end: usize,
) -> (ok: bool)
    requires
        heap_start <= heap_end,
    ensures
        ok <==> heap_end - heap_start >= PAGE_SIZE,
        ok ==> {
            &&& final(pages).wf()
            &&& final(pages).total() == (heap_end - heap_start) / PAGE_SIZE as int
            &&& final(pages).free() == final(pages).total()
            &&& final(pages).allocated() == Set::<int>::empty()
            &&& final(heap).wf()
            &&& final(heap).start() == heap_start
            &&& final(heap).end() == heap_end
            &&& final(heap).cursor() == heap_start
        },
        !ok ==> *final(pages) == *old(pages) && *final(heap) == *old(heap),
{
    let heap_size: usize = heap_end - heap_start;
    if !pages.init(heap_start, heap_size) {
        return false;
    }
    if !heap.init(heap_start, heap_size) {
        return false;
    }
    true
}

/// Allocates the lowest free frame of `pages`.
pub fn alloc_page(pages: &mut PageAllocator) -> (r: Option<usize>)
    requires
        old(pages).wf(),
    ensures
        final(pages).wf(),
        final(pages).total() == old(pages).total(),
        r is None <==> old(pages).is_full(),
        old(pages).total() <= MAX_PAGES ==> (r is None <==> old(pages).free() == 0),
        r is None ==> *final(pages) == *old(pages),
        r matches Some(addr) ==> {
            let p = frame_of(addr);
            &&& addr == p * PAGE_SIZE
            &&& 0 <= p < old(pages).capacity()
            &&& !old(pages).allocated().contains(p)
            &&& forall|q: int| 0 <= q < p ==> old(pages).allocated().contains(q)
            &&& final(pages).allocated() == old(pages).allocated().insert(p)
            &&& final(pages).free() == old(pages).free() - 1
        },
{
    pages.alloc_page()
}

/// Returns the frame that holds `addr` to `pages`.
pub fn dealloc_page(pages: &mut PageAllocator, addr: usize)
    requires
        old(pages).wf(),
        frame_of(addr) < MAX_PAGES ==> old(pages).allocated().contains(frame_of(addr)),
    ensures
        final(pages).wf(),
        final(pages).total() == old(pages).total(),
        frame_of(addr) >= MAX_PAGES ==> *final(pages) == *old(pages),
        frame_of(addr) < MAX_PAGES ==> {
            &&& final(pages).allocated() == old(pages).allocated().remove(frame_of(addr))
            &&& final(pages).free() == old(pages).free() + 1
        },
{
    pages.dealloc_page(addr)
}

/// The number of free frames, the heap bytes in use, and the heap's size.
pub fn get_memory_stats(pages: &PageAllocator, heap: &BumpAllocator) -> (r: (usize, usize, usize))
    requires
        heap.wf(),
    ensures
        r.0 == pages.free(),
        r.1 == heap.used(),
        r.2 == KERNEL_HEAP_SIZE,
{
    (pages.get_free_pages(), heap.get_used_bytes(), KERNEL_HEAP_SIZE)
}

} // verus!
