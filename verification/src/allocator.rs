//! A first-fit heap allocator over one donated range of addresses.
//!
//! The allocator keeps the unused parts of the range as a list of free
//! regions in ascending address order. No two regions overlap or touch:
//! neighbours are always merged. The list is the allocator's only state, so
//! every operation is described by what it does to that list.
use vstd::prelude::*;

verus! {

/// A chunk of memory: `size` bytes starting at `start_addr`.
#[derive(Clone, Copy, Debug, PartialEq, Eq, Structural)]
pub struct MemChunk {
    pub start_addr: usize,
    pub size: usize,
}

impl MemChunk {
    /// One past the last byte of the chunk.
    pub open spec fn end(self) -> int {
        self.start_addr + self.size
    }

    /// A chunk is valid when it is not empty and ends inside the address space.
    pub open spec fn valid(self) -> bool {
        self.size > 0 && self.start_addr + self.size <= usize::MAX
    }

    /// Whether byte address `a` lies in the chunk.
    pub open spec fn contains(self, a: int) -> bool {
        self.start_addr <= a < self.end()
    }

    /// The set of byte addresses the chunk covers.
    pub open spec fn bytes(self) -> Set<int> {
        Set::new(|a: int| self.contains(a))
    }

    /// Whether the two chunks share no byte.
    pub open spec fn disjoint(self, other: MemChunk) -> bool {
        self.end() <= other.start_addr || other.end() <= self.start_addr
    }

    pub fn new(start_addr: usize, size: usize) -> (chunk: MemChunk)
        ensures
            chunk.start_addr == start_addr,
            chunk.size == size,
    {
        MemChunk { start_addr, size }
    }

    /// The address of the first byte.
    pub fn start_addr(&self) -> (addr: usize)
        ensures
            addr == self.start_addr,
    {
        self.start_addr
    }

    /// The address of the last byte.
    pub fn end_addr(&self) -> (addr: usize)
        requires
            self.valid(),
        ensures
            addr == self.start_addr + self.size - 1,
    {
        self.start_addr + self.size - 1
    }

    /// The number of bytes.
    pub fn size(&self) -> (size: usize)
        ensures
            size == self.size,
    {
        self.size
    }
}

/// The free list's invariant: every region is valid, and each region ends
/// strictly below the start of every later one (sorted, disjoint, and never
/// adjacent).
pub open spec fn free_list_wf(s: Seq<MemChunk>) -> bool {
    &&& forall|i: int| 0 <= i < s.len() ==> (#[trigger] s[i]).valid()
    &&& forall|i: int, j: int|
        #![trigger s[i], s[j]]
        0 <= i < j < s.len() ==> s[i].end() < s[j].start_addr
}

/// Whether byte address `a` is free in the list `s`.
pub open spec fn is_free(s: Seq<MemChunk>, a: int) -> bool {
    exists|i: int| 0 <= i < s.len() && (#[trigger] s[i]).contains(a)
}

/// All free byte addresses of the list `s`.
pub open spec fn free_bytes(s: Seq<MemChunk>) -> Set<int> {
    Set::new(|a: int| is_free(s, a))
}

/// Whether `chunk` shares no byte with any region of `s`.
pub open spec fn disjoint_from_free(s: Seq<MemChunk>, chunk: MemChunk) -> bool {
    forall|i: int| 0 <= i < s.len() ==> (#[trigger] s[i]).disjoint(chunk)
}

/// The closest address at or above `addr` that is a multiple of `align`.
pub open spec fn align_up(addr: int, align: int) -> int {
    if addr % align == 0 {
        addr
    } else {
        addr - addr % align + align
    }
}

/// Whether region `c` can hold `size` bytes at an address aligned to `align`.
pub open spec fn fits(c: MemChunk, size: int, align: int) -> bool {
    align_up(c.start_addr as int, align) + size <= c.end()
}

/// The index of the first region at or after `from` that fits the request,
/// or `s.len()` when there is none.
pub open spec fn first_fit_from(s: Seq<MemChunk>, from: int, size: int, align: int) -> int
    decreases s.len() - from,
{
    if from >= s.len() {
        s.len() as int
    } else if fits(s[from], size, align) {
        from
    } else {
        first_fit_from(s, from + 1, size, align)
    }
}

/// The index of the first region that fits the request, or `s.len()`.
pub open spec fn first_fit(s: Seq<MemChunk>, size: int, align: int) -> int {
    first_fit_from(s, 0, size, align)
}

/// The list after `size` bytes at the aligned address are taken out of
/// region `i`. What is left of the region, before and after the block, stays
/// free.
pub open spec fn carve(s: Seq<MemChunk>, i: int, size: int, align: int) -> Seq<MemChunk> {
    let c = s[i];
    let addr = align_up(c.start_addr as int, align);
    let head = addr - c.start_addr;
    let tail = c.end() - (addr + size);
    if head == 0 && tail == 0 {
        s.remove(i)
    } else if tail == 0 {
        s.update(i, MemChunk { start_addr: c.start_addr, size: head as usize })
    } else if head == 0 {
        s.update(i, MemChunk { start_addr: (addr + size) as usize, size: tail as usize })
    } else {
        s.update(i, MemChunk { start_addr: c.start_addr, size: head as usize }).insert(
            i + 1,
            MemChunk { start_addr: (addr + size) as usize, size: tail as usize },
        )
    }
}

/// The address that a request is answered with: the aligned address in the
/// first region that fits, or `None` when no region fits.
pub open spec fn alloc_addr(s: Seq<MemChunk>, size: int, align: int) -> Option<usize> {
    let i = first_fit(s, size, align);
    if i < s.len() {
        Some(align_up(s[i].start_addr as int, align) as usize)
    } else {
        None
    }
}

/// The free list after a request: the first fitting region is carved, or
/// nothing changes when no region fits.
pub open spec fn alloc_after(s: Seq<MemChunk>, size: int, align: int) -> Seq<MemChunk> {
    let i = first_fit(s, size, align);
    if i < s.len() {
        carve(s, i, size, align)
    } else {
        s
    }
}

/// The number of regions at or after `from` that start below `addr`, plus
/// `from`: where a chunk at `addr` belongs in the sorted list.
pub open spec fn insert_pos_from(s: Seq<MemChunk>, from: int, addr: int) -> int
    decreases s.len() - from,
{
    if from >= s.len() {
        s.len() as int
    } else if s[from].start_addr > addr {
        from
    } else {
        insert_pos_from(s, from + 1, addr)
    }
}

/// The index of the first region that starts above `addr`, or `s.len()`.
pub open spec fn insert_pos(s: Seq<MemChunk>, addr: int) -> int {
    insert_pos_from(s, 0, addr)
}

/// The free list after `chunk` is given back. The chunk is merged with the
/// region that ends where it starts, with the region that starts where it
/// ends, with both, or it becomes a region of its own.
pub open spec fn release(s: Seq<MemChunk>, chunk: MemChunk) -> Seq<MemChunk> {
    let i = insert_pos(s, chunk.start_addr as int);
    let joins_prev = i > 0 && s[i - 1].end() == chunk.start_addr;
    let joins_next = i < s.len() && chunk.end() == s[i].start_addr;
    if joins_prev && joins_next {
        s.update(
            i - 1,
            MemChunk {
                start_addr: s[i - 1].start_addr,
                size: (s[i - 1].size + chunk.size + s[i].size) as usize,
            },
        ).remove(i)
    } else if joins_prev {
        s.update(
            i - 1,
            MemChunk { start_addr: s[i - 1].start_addr, size: (s[i - 1].size + chunk.size) as usize },
        )
    } else if joins_next {
        s.update(
            i,
            MemChunk { start_addr: chunk.start_addr, size: (chunk.size + s[i].size) as usize },
        )
    } else {
        s.insert(i, chunk)
    }
}

/// Where the search from `from` ends: every region before the result does
/// not fit, and the result, if it is an index, fits.
pub proof fn lemma_first_fit_from(s: Seq<MemChunk>, from: int, size: int, align: int)
    requires
        0 <= from <= s.len(),
    ensures
        from <= first_fit_from(s, from, size, align) <= s.len(),
        forall|j: int|
            from <= j < first_fit_from(s, from, size, align) ==> !fits(#[trigger] s[j], size, align),
        first_fit_from(s, from, size, align) < s.len() ==> fits(
            s[first_fit_from(s, from, size, align)],
            size,
            align,
        ),
    decreases s.len() - from,
{
    if from < s.len() && !fits(s[from], size, align) {
        lemma_first_fit_from(s, from + 1, size, align);
    }
}

/// Where the search for a chunk's place ends: every region before the
/// result starts at or below `addr`, and the result, if it is an index,
/// starts above it.
pub proof fn lemma_insert_pos_from(s: Seq<MemChunk>, from: int, addr: int)
    requires
        0 <= from <= s.len(),
    ensures
        from <= insert_pos_from(s, from, addr) <= s.len(),
        forall|j: int|
            from <= j < insert_pos_from(s, from, addr) ==> (#[trigger] s[j]).start_addr <= addr,
        insert_pos_from(s, from, addr) < s.len() ==> s[insert_pos_from(s, from, addr)].start_addr
            > addr,
    decreases s.len() - from,
{
    if from < s.len() && s[from].start_addr <= addr {
        lemma_insert_pos_from(s, from + 1, addr);
    }
}

/// The search for a chunk's place ends at `i` when every region in between
/// starts at or below `addr` and `i` is the end of the list or starts above.
pub proof fn lemma_insert_pos_is(s: Seq<MemChunk>, from: int, i: int, addr: int)
    requires
        0 <= from <= i <= s.len(),
        forall|j: int| from <= j < i ==> (#[trigger] s[j]).start_addr <= addr,
        i < s.len() ==> s[i].start_addr > addr,
    ensures
        insert_pos_from(s, from, addr) == i,
    decreases i - from,
{
    if from < i {
        lemma_insert_pos_is(s, from + 1, i, addr);
    }
}

/// The aligned address is the least multiple of `align` at or above `addr`.
pub proof fn lemma_align_up(addr: int, align: int)
    requires
        addr >= 0,
        align > 0,
    ensures
        addr <= align_up(addr, align) < addr + align,
        align_up(addr, align) % align == 0,
        forall|x: int| addr <= x && #[trigger] (x % align) == 0 ==> align_up(addr, align) <= x,
{
    let r = addr % align;
    let up = align_up(addr, align);
    assert(0 <= r < align && addr == align * (addr / align) + r) by {
        vstd::arithmetic::div_mod::lemma_fundamental_div_mod(addr, align);
        vstd::arithmetic::div_mod::lemma_mod_pos_bound(addr, align);
    }
    assert(up % align == 0) by {
        if r != 0 {
            assert(up == align * (addr / align + 1)) by (nonlinear_arith)
                requires
                    up == addr - r + align,
                    addr == align * (addr / align) + r,
            ;
            vstd::arithmetic::div_mod::lemma_mod_multiples_basic(addr / align + 1, align);
        }
    }
    assert forall|x: int| addr <= x && #[trigger] (x % align) == 0 implies up <= x by {
        if x < up {
            // addr <= x < up, x a multiple of align, up the next multiple after addr - r
            vstd::arithmetic::div_mod::lemma_fundamental_div_mod(x, align);
            let q = x / align;
            let p = addr / align;
            assert(x == align * q);
            assert(up == align * (p + 1)) by (nonlinear_arith)
                requires
                    up == addr - r + align,
                    addr == align * p + r,
            ;
            assert(q > p) by (nonlinear_arith)
                requires
                    align * q >= align * p + r,
                    r > 0,
                    align > 0,
            ;
            assert(q < p + 1) by (nonlinear_arith)
                requires
                    align * q < align * (p + 1),
                    align > 0,
            ;
        }
    }
}

/// Carving a block out of a region that fits it keeps the list well formed,
/// and takes exactly the block's bytes out of the free bytes.
pub proof fn lemma_carve(s: Seq<MemChunk>, i: int, size: int, align: int)
    requires
        free_list_wf(s),
        0 <= i < s.len(),
        size > 0,
        align > 0,
        fits(s[i], size, align),
    ensures
        free_list_wf(carve(s, i, size, align)),
        s[i].start_addr <= align_up(s[i].start_addr as int, align),
        align_up(s[i].start_addr as int, align) + size <= s[i].end(),
        forall|a: int|
            is_free(carve(s, i, size, align), a) <==> is_free(s, a) && !(align_up(
                s[i].start_addr as int,
                align,
            ) <= a < align_up(s[i].start_addr as int, align) + size),
{
    lemma_align_up(s[i].start_addr as int, align);
    lemma_carve_wf(s, i, size, align);
    assert forall|k: int| 0 <= k < s.len() && k != i implies (#[trigger] s[k]).disjoint(s[i]) by {
        if k < i {
            assert(s[k].end() < s[i].start_addr);
        } else {
            assert(s[i].end() < s[k].start_addr);
        }
    }
    lemma_carve_bytes(s, i, size, align);
}

proof fn lemma_carve_wf(s: Seq<MemChunk>, i: int, size: int, align: int)
    requires
        free_list_wf(s),
        0 <= i < s.len(),
        size > 0,
        align > 0,
        fits(s[i], size, align),
    ensures
        free_list_wf(carve(s, i, size, align)),
{
    let c = s[i];
    let addr = align_up(c.start_addr as int, align);
    let t = carve(s, i, size, align);
    let head = addr - c.start_addr;
    let tail = c.end() - (addr + size);
    lemma_align_up(c.start_addr as int, align);
    assert(c.valid());
    if head == 0 && tail == 0 {
        assert forall|k: int| 0 <= k < t.len() implies (#[trigger] t[k]).valid() by {
            let sk = if k < i { k } else { k + 1 };
            assert(s[sk].valid());
        }
        assert forall|k: int, l: int| 0 <= k < l < t.len() implies (#[trigger] t[k]).end() < (
        #[trigger] t[l]).start_addr by {
            let sk = if k < i { k } else { k + 1 };
            let sl = if l < i { l } else { l + 1 };
            assert(s[sk].end() < s[sl].start_addr);
        }
    } else if tail == 0 || head == 0 {
        assert forall|k: int| 0 <= k < t.len() implies (#[trigger] t[k]).valid() by {
            assert(s[k].valid());
        }
        assert forall|k: int, l: int| 0 <= k < l < t.len() implies (#[trigger] t[k]).end() < (
        #[trigger] t[l]).start_addr by {
            assert(s[k].end() < s[l].start_addr);
        }
    } else {
        assert forall|k: int| 0 <= k < t.len() implies (#[trigger] t[k]).valid() by {
            let sk = if k <= i { k } else { k - 1 };
            assert(s[sk].valid());
        }
        assert forall|k: int, l: int| 0 <= k < l < t.len() implies (#[trigger] t[k]).end() < (
        #[trigger] t[l]).start_addr by {
            let sk = if k <= i { k } else { k - 1 };
            let sl = if l <= i { l } else { l - 1 };
            if sk < sl {
                assert(s[sk].end() < s[sl].start_addr);
            }
        }
    }
}

proof fn lemma_carve_bytes(s: Seq<MemChunk>, i: int, size: int, align: int)
    requires
        forall|k: int| 0 <= k < s.len() ==> (#[trigger] s[k]).valid(),
        forall|k: int| 0 <= k < s.len() && k != i ==> (#[trigger] s[k]).disjoint(s[i]),
        0 <= i < s.len(),
        size > 0,
        align > 0,
        fits(s[i], size, align),
        s[i].start_addr <= align_up(s[i].start_addr as int, align),
    ensures
        forall|a: int|
            is_free(carve(s, i, size, align), a) <==> is_free(s, a) && !(align_up(
                s[i].start_addr as int,
                align,
            ) <= a < align_up(s[i].start_addr as int, align) + size),
{
    let c = s[i];
    let addr = align_up(c.start_addr as int, align);
    let t = carve(s, i, size, align);
    let head = addr - c.start_addr;
    let tail = c.end() - (addr + size);
    assert(c.valid());
    if head == 0 && tail == 0 {
        assert forall|a: int| is_free(t, a) <==> is_free(s, a) && !(addr <= a < addr + size) by {
            if is_free(t, a) {
                let k = choose|k: int| 0 <= k < t.len() && (#[trigger] t[k]).contains(a);
                if k < i {
                    assert(s[k].contains(a) && s[k].disjoint(c));
                } else {
                    assert(s[k + 1].contains(a) && s[k + 1].disjoint(c));
                }
            }
            if is_free(s, a) && !(addr <= a < addr + size) {
                let k = choose|k: int| 0 <= k < s.len() && (#[trigger] s[k]).contains(a);
                if k < i {
                    assert(t[k].contains(a));
                } else {
                    assert(t[k - 1].contains(a));
                }
            }
        }
    } else if tail == 0 || head == 0 {
        assert forall|a: int| is_free(t, a) <==> is_free(s, a) && !(addr <= a < addr + size) by {
            if is_free(t, a) {
                let k = choose|k: int| 0 <= k < t.len() && (#[trigger] t[k]).contains(a);
                assert(s[k].contains(a));
                if k != i {
                    assert(s[k].disjoint(c));
                }
            }
            if is_free(s, a) && !(addr <= a < addr + size) {
                let k = choose|k: int| 0 <= k < s.len() && (#[trigger] s[k]).contains(a);
                assert(t[k].contains(a));
            }
        }
    } else {
        assert forall|a: int| is_free(t, a) <==> is_free(s, a) && !(addr <= a < addr + size) by {
            if is_free(t, a) {
                let k = choose|k: int| 0 <= k < t.len() && (#[trigger] t[k]).contains(a);
                if k < i {
                    assert(s[k].contains(a) && s[k].disjoint(c));
                } else if k == i || k == i + 1 {
                    assert(s[i].contains(a));
                } else {
                    assert(s[k - 1].contains(a) && s[k - 1].disjoint(c));
                }
            }
            if is_free(s, a) && !(addr <= a < addr + size) {
                let k = choose|k: int| 0 <= k < s.len() && (#[trigger] s[k]).contains(a);
                if k < i || (k == i && a < addr) {
                    assert(t[k].contains(a));
                } else {
                    assert(t[k + 1].contains(a));
                }
            }
        }
    }
}

/// Where a chunk that shares no byte with the free list belongs: every
/// region before its place ends at or below it, every region from its place
/// on starts at or above its end.
pub proof fn lemma_release_place(s: Seq<MemChunk>, chunk: MemChunk)
    requires
        free_list_wf(s),
        chunk.valid(),
        disjoint_from_free(s, chunk),
    ensures
        0 <= insert_pos(s, chunk.start_addr as int) <= s.len(),
        forall|j: int|
            0 <= j < insert_pos(s, chunk.start_addr as int) ==> (#[trigger] s[j]).end()
                <= chunk.start_addr,
        forall|j: int|
            insert_pos(s, chunk.start_addr as int) <= j < s.len() ==> chunk.end()
                <= (#[trigger] s[j]).start_addr,
{
    let i = insert_pos(s, chunk.start_addr as int);
    lemma_insert_pos_from(s, 0, chunk.start_addr as int);
    assert forall|j: int| 0 <= j < i implies (#[trigger] s[j]).end() <= chunk.start_addr by {
        assert(s[j].valid() && s[j].disjoint(chunk));
    }
    assert forall|j: int| i <= j < s.len() implies chunk.end() <= (#[trigger] s[j]).start_addr by {
        assert(s[j].valid() && s[j].disjoint(chunk));
        assert(s[i].valid() && s[i].disjoint(chunk));
    }
}

/// Giving back a chunk that shares no byte with the free list keeps the
/// list well formed.
pub proof fn lemma_release_wf(s: Seq<MemChunk>, chunk: MemChunk)
    requires
        free_list_wf(s),
        chunk.valid(),
        disjoint_from_free(s, chunk),
    ensures
        free_list_wf(release(s, chunk)),
{
    let i = insert_pos(s, chunk.start_addr as int);
    let t = release(s, chunk);
    lemma_release_place(s, chunk);
    let joins_prev = i > 0 && s[i - 1].end() == chunk.start_addr;
    let joins_next = i < s.len() && chunk.end() == s[i].start_addr;
    if i > 0 {
        assert(s[i - 1].valid());
    }
    if i < s.len() {
        assert(s[i].valid());
    }
    if joins_prev && joins_next {
        assert forall|k: int| 0 <= k < t.len() implies (#[trigger] t[k]).valid() by {
            if k < i - 1 {
                assert(s[k].valid());
            } else if k >= i {
                assert(s[k + 1].valid());
            }
        }
        assert forall|k: int, l: int| 0 <= k < l < t.len() implies (#[trigger] t[k]).end() < (
        #[trigger] t[l]).start_addr by {
            let sk = if k < i { k } else { k + 1 };
            let sl = if l < i { l } else { l + 1 };
            assert(s[sk].end() < s[sl].start_addr);
            assert(s[i - 1].end() < s[i].start_addr);
            if k == i - 1 {
                assert(s[i].end() < s[sl].start_addr);
            }
        }
    } else if joins_prev {
        assert forall|k: int| 0 <= k < t.len() implies (#[trigger] t[k]).valid() by {
            assert(s[k].valid());
        }
        assert forall|k: int, l: int| 0 <= k < l < t.len() implies (#[trigger] t[k]).end() < (
        #[trigger] t[l]).start_addr by {
            assert(s[k].end() < s[l].start_addr);
        }
    } else if joins_next {
        assert forall|k: int| 0 <= k < t.len() implies (#[trigger] t[k]).valid() by {
            assert(s[k].valid());
        }
        assert forall|k: int, l: int| 0 <= k < l < t.len() implies (#[trigger] t[k]).end() < (
        #[trigger] t[l]).start_addr by {
            assert(s[k].end() < s[l].start_addr);
        }
    } else {
        assert forall|k: int| 0 <= k < t.len() implies (#[trigger] t[k]).valid() by {
            if k < i {
                assert(s[k].valid());
            } else if k > i {
                assert(s[k - 1].valid());
            }
        }
        assert forall|k: int, l: int| 0 <= k < l < t.len() implies (#[trigger] t[k]).end() < (
        #[trigger] t[l]).start_addr by {
            let sk = if k < i { k } else { k - 1 };
            let sl = if l < i { l } else { l - 1 };
            if k != i && l != i {
                assert(s[sk].end() < s[sl].start_addr);
            }
        }
    }
}

/// Giving back a chunk that shares no byte with the free list adds exactly
/// the chunk's bytes to the free bytes.
pub proof fn lemma_release_bytes(s: Seq<MemChunk>, chunk: MemChunk)
    requires
        free_list_wf(s),
        chunk.valid(),
        disjoint_from_free(s, chunk),
    ensures
        forall|a: int| is_free(release(s, chunk), a) <==> is_free(s, a) || chunk.contains(a),
{
    lemma_release_bytes_of_valid(s, chunk);
}

proof fn lemma_release_bytes_of_valid(s: Seq<MemChunk>, chunk: MemChunk)
    requires
        forall|i: int| 0 <= i < s.len() ==> (#[trigger] s[i]).valid(),
        chunk.valid(),
    ensures
        forall|a: int| is_free(release(s, chunk), a) <==> is_free(s, a) || chunk.contains(a),
{
    let i = insert_pos(s, chunk.start_addr as int);
    let t = release(s, chunk);
    lemma_insert_pos_from(s, 0, chunk.start_addr as int);
    let joins_prev = i > 0 && s[i - 1].end() == chunk.start_addr;
    let joins_next = i < s.len() && chunk.end() == s[i].start_addr;
    if i > 0 {
        assert(s[i - 1].valid());
    }
    if i < s.len() {
        assert(s[i].valid());
    }
    if joins_prev && joins_next {
        assert forall|a: int| is_free(t, a) <==> is_free(s, a) || chunk.contains(a) by {
            if is_free(t, a) {
                let k = choose|k: int| 0 <= k < t.len() && (#[trigger] t[k]).contains(a);
                if k < i - 1 {
                    assert(s[k].contains(a));
                } else if k == i - 1 {
                    assert(s[i - 1].contains(a) || chunk.contains(a) || s[i].contains(a));
                } else {
                    assert(s[k + 1].contains(a));
                }
            }
            if is_free(s, a) {
                let k = choose|k: int| 0 <= k < s.len() && (#[trigger] s[k]).contains(a);
                if k < i {
                    assert(t[k].contains(a));
                } else if k == i {
                    assert(t[i - 1].contains(a));
                } else {
                    assert(t[k - 1].contains(a));
                }
            }
            if chunk.contains(a) {
                assert(t[i - 1].contains(a));
            }
        }
    } else if joins_prev || joins_next {
        let m = if joins_prev { i - 1 } else { i };
        assert forall|a: int| is_free(t, a) <==> is_free(s, a) || chunk.contains(a) by {
            if is_free(t, a) {
                let k = choose|k: int| 0 <= k < t.len() && (#[trigger] t[k]).contains(a);
                if k != m {
                    assert(s[k].contains(a));
                } else {
                    assert(s[m].contains(a) || chunk.contains(a));
                }
            }
            if is_free(s, a) {
                let k = choose|k: int| 0 <= k < s.len() && (#[trigger] s[k]).contains(a);
                assert(t[k].contains(a));
            }
            if chunk.contains(a) {
                assert(t[m].contains(a));
            }
        }
    } else {
        assert forall|a: int| is_free(t, a) <==> is_free(s, a) || chunk.contains(a) by {
            if is_free(t, a) {
                let k = choose|k: int| 0 <= k < t.len() && (#[trigger] t[k]).contains(a);
                if k < i {
                    assert(s[k].contains(a));
                } else if k > i {
                    assert(s[k - 1].contains(a));
                }
            }
            if is_free(s, a) {
                let k = choose|k: int| 0 <= k < s.len() && (#[trigger] s[k]).contains(a);
                if k < i {
                    assert(t[k].contains(a));
                } else {
                    assert(t[k + 1].contains(a));
                }
            }
            if chunk.contains(a) {
                assert(t[i].contains(a));
            }
        }
    }
}

/// The chunk of `size` bytes at `start_addr`.
pub open spec fn chunk_at(start_addr: usize, size: usize) -> MemChunk {
    MemChunk { start_addr, size }
}

/// A valid chunk none of whose bytes is free in `s` is disjoint from every
/// region of `s`.
pub proof fn lemma_disjoint_by_bytes(s: Seq<MemChunk>, b: MemChunk)
    requires
        b.valid(),
        forall|i: int| 0 <= i < s.len() ==> (#[trigger] s[i]).valid(),
        forall|a: int| b.contains(a) ==> !is_free(s, a),
    ensures
        disjoint_from_free(s, b),
{
    assert forall|i: int| 0 <= i < s.len() implies (#[trigger] s[i]).disjoint(b) by {
        assert(s[i].valid());
        if !s[i].disjoint(b) {
            let a = if s[i].start_addr >= b.start_addr {
                s[i].start_addr as int
            } else {
                b.start_addr as int
            };
            assert(s[i].contains(a) && b.contains(a));
            assert(is_free(s, a));
        }
    }
}

/// A chunk that is disjoint from every region of `s` holds no free byte.
pub proof fn lemma_bytes_by_disjoint(s: Seq<MemChunk>, b: MemChunk)
    requires
        disjoint_from_free(s, b),
    ensures
        forall|a: int| b.contains(a) ==> !is_free(s, a),
{
    assert forall|a: int| b.contains(a) implies !is_free(s, a) by {
        if is_free(s, a) {
            let i = choose|i: int| 0 <= i < s.len() && (#[trigger] s[i]).contains(a);
            assert(s[i].disjoint(b));
        }
    }
}

/// What a successful request does to the free bytes: the block is aligned,
/// all its bytes were free, and exactly they are no longer free.
pub proof fn lemma_alloc_bytes(s: Seq<MemChunk>, size: usize, align: usize)
    requires
        free_list_wf(s),
        size > 0,
        align > 0,
    ensures
        free_list_wf(alloc_after(s, size as int, align as int)),
        alloc_addr(s, size as int, align as int) matches Some(addr) ==> {
            &&& addr as int % align as int == 0
            &&& chunk_at(addr, size).valid()
            &&& disjoint_from_free(alloc_after(s, size as int, align as int), chunk_at(addr, size))
            &&& chunk_at(addr, size).bytes().subset_of(free_bytes(s))
            &&& free_bytes(alloc_after(s, size as int, align as int)) == free_bytes(s).difference(
                chunk_at(addr, size).bytes(),
            )
        },
{
    let i = first_fit(s, size as int, align as int);
    lemma_first_fit_from(s, 0, size as int, align as int);
    if i < s.len() {
        lemma_carve(s, i, size as int, align as int);
        lemma_align_up(s[i].start_addr as int, align as int);
        let addr = align_up(s[i].start_addr as int, align as int);
        let t = carve(s, i, size as int, align as int);
        let block = chunk_at(addr as usize, size);
        assert(s[i].valid());
        assert forall|a: int| block.contains(a) implies is_free(s, a) by {
            assert(s[i].contains(a));
        }
        assert(free_bytes(t) =~= free_bytes(s).difference(block.bytes()));
        lemma_disjoint_by_bytes(t, block);
    }
}

/// A request leaves every block that is not free as it is: none of its
/// bytes becomes free, and the block handed out shares no byte with it.
pub proof fn lemma_alloc_keeps_blocks(s: Seq<MemChunk>, size: usize, align: usize, b: MemChunk)
    requires
        free_list_wf(s),
        size > 0,
        align > 0,
        b.valid(),
        disjoint_from_free(s, b),
    ensures
        disjoint_from_free(alloc_after(s, size as int, align as int), b),
        alloc_addr(s, size as int, align as int) matches Some(addr) ==> chunk_at(
            addr,
            size,
        ).disjoint(b),
{
    let i = first_fit(s, size as int, align as int);
    lemma_first_fit_from(s, 0, size as int, align as int);
    if i < s.len() {
        lemma_carve(s, i, size as int, align as int);
        lemma_bytes_by_disjoint(s, b);
        lemma_disjoint_by_bytes(carve(s, i, size as int, align as int), b);
        assert(s[i].valid() && s[i].disjoint(b));
    }
}

/// Giving a chunk back leaves every other block that is not free as it is.
pub proof fn lemma_release_keeps_blocks(s: Seq<MemChunk>, chunk: MemChunk, b: MemChunk)
    requires
        free_list_wf(s),
        chunk.valid(),
        disjoint_from_free(s, chunk),
        b.valid(),
        disjoint_from_free(s, b),
        b.disjoint(chunk),
    ensures
        disjoint_from_free(release(s, chunk), b),
{
    lemma_release_wf(s, chunk);
    lemma_release_bytes(s, chunk);
    lemma_bytes_by_disjoint(s, b);
    lemma_disjoint_by_bytes(release(s, chunk), b);
}

/// An allocator for managing heap memory. It keeps track of the free
/// regions of the heap in a list ordered by address.
pub struct LinkedListAllocator {
    regions: Vec<MemChunk>,
}

impl View for LinkedListAllocator {
    type V = Seq<MemChunk>;

    /// The free regions, in address order.
    closed spec fn view(&self) -> Seq<MemChunk> {
        self.regions@
    }
}

impl LinkedListAllocator {
    /// The allocator's invariant: its free list is well formed.
    pub open spec fn wf(&self) -> bool {
        free_list_wf(self@)
    }

    /// Whether a request for `size` bytes aligned to `align` can be met.
    pub open spec fn can_alloc(&self, size: usize, align: usize) -> bool {
        first_fit(self@, size as int, align as int) < self@.len()
    }

    /// Whether the block of `size` bytes at `addr` is a valid chunk none of
    /// whose bytes is free: a block that may be given back.
    pub open spec fn is_allocated(&self, addr: usize, size: usize) -> bool {
        chunk_at(addr, size).valid() && disjoint_from_free(self@, chunk_at(addr, size))
    }

    /// Creates an allocator that manages `heap`, all of it free.
    pub fn new(heap: MemChunk) -> (allocator: LinkedListAllocator)
        requires
            heap.valid(),
        ensures
            allocator@ == seq![heap],
            allocator.wf(),
    {
        let mut regions = Vec::new();
        regions.push(heap);
        assert(regions@ =~= seq![heap]);
        LinkedListAllocator { regions }
    }

    /// The free regions, in address order.
    pub fn free_regions(&self) -> (regions: &Vec<MemChunk>)
        ensures
            regions@ == self@,
    {
        &self.regions
    }

    /// The index of the first free region that can hold the request, or the
    /// number of regions when none can.
    fn first_fit_index(&self, size: usize, alignment: usize) -> (i: usize)
        requires
            self.wf(),
            size > 0,
            alignment > 0,
        ensures
            i == first_fit(self@, size as int, alignment as int),
            i <= self@.len(),
    {
        let mut i: usize = 0;
        while i < self.regions.len()
            invariant
                self.wf(),
                size > 0,
                alignment > 0,
                i <= self.regions@.len(),
                first_fit(self@, size as int, alignment as int) == first_fit_from(
                    self@,
                    i as int,
                    size as int,
                    alignment as int,
                ),
            decreases self.regions@.len() - i,
        {
            let c = self.regions[i];
            assert(c.valid());
            let rem = c.start_addr % alignment;
            let head = if rem == 0 {
                0
            } else {
                alignment - rem
            };
            if head <= c.size && size <= c.size - head {
                return i;
            }
            i += 1;
        }
        i
    }

    /// Whether a request for `size` bytes aligned to `alignment` can be met.
    pub fn has_room_for(&self, size: usize, alignment: usize) -> (b: bool)
        requires
            self.wf(),
            size > 0,
            alignment > 0,
        ensures
            b == self.can_alloc(size, alignment),
    {
        self.first_fit_index(size, alignment) < self.regions.len()
    }

    /// Whether none of the `size` bytes at `addr` is free.
    pub fn holds_block(&self, addr: usize, size: usize) -> (b: bool)
        requires
            self.wf(),
        ensures
            b == self.is_allocated(addr, size),
    {
        if size == 0 || size > usize::MAX - addr {
            return false;
        }
        let mut i: usize = 0;
        while i < self.regions.len()
            invariant
                self.wf(),
                size > 0,
                addr + size <= usize::MAX,
                i <= self.regions@.len(),
                forall|j: int| 0 <= j < i ==> (#[trigger] self@[j]).disjoint(chunk_at(addr, size)),
            decreases self.regions@.len() - i,
        {
            let c = self.regions[i];
            assert(c.valid());
            if !(c.start_addr + c.size <= addr || addr + size <= c.start_addr) {
                return false;
            }
            i += 1;
        }
        true
    }

    /// Finds the first free region that can hold `size` bytes at an address
    /// aligned to `alignment`, takes the block out of it, and returns the
    /// block's address.
    fn find_free_region(&mut self, size: usize, alignment: usize) -> (r: Option<usize>)
        requires
            old(self).wf(),
            size > 0,
            alignment > 0,
        ensures
            final(self).wf(),
            r == alloc_addr(old(self)@, size as int, alignment as int),
            final(self)@ == alloc_after(old(self)@, size as int, alignment as int),
    {
        let i = self.first_fit_index(size, alignment);
        if i >= self.regions.len() {
            return None;
        }
        let ghost s = self.regions@;
        proof {
            lemma_first_fit_from(s, 0, size as int, alignment as int);
            lemma_carve(s, i as int, size as int, alignment as int);
        }
        let c = self.regions[i];
        let rem = c.start_addr % alignment;
        let head = if rem == 0 {
            0
        } else {
            alignment - rem
        };
        let addr = c.start_addr + head;
        let tail = c.size - head - size;
        if head == 0 && tail == 0 {
            // The block is the whole region.
            self.regions.remove(i);
        } else if tail == 0 {
            // The block is the end of the region: what lies before it stays free.
            self.regions.set(i, MemChunk { start_addr: c.start_addr, size: head });
        } else if head == 0 {
            // The block is the start of the region: what lies after it stays free.
            self.regions.set(i, MemChunk { start_addr: addr + size, size: tail });
        } else {
            // The block is inside the region: both ends stay free.
            self.regions.set(i, MemChunk { start_addr: c.start_addr, size: head });
            self.regions.insert(i + 1, MemChunk { start_addr: addr + size, size: tail });
        }
        Some(addr)
    }

    /// Puts the free region `mem_chunk` into the list, merged with the
    /// regions it touches.
    fn add_free_region(&mut self, mem_chunk: MemChunk)
        requires
            old(self).wf(),
            mem_chunk.valid(),
            disjoint_from_free(old(self)@, mem_chunk),
        ensures
            final(self).wf(),
            final(self)@ == release(old(self)@, mem_chunk),
    {
        let ghost s = self.regions@;
        let mut i: usize = 0;
        while i < self.regions.len() && self.regions[i].start_addr <= mem_chunk.start_addr
            invariant
                self.regions@ == s,
                i <= s.len(),
                insert_pos(s, mem_chunk.start_addr as int) == insert_pos_from(
                    s,
                    i as int,
                    mem_chunk.start_addr as int,
                ),
            decreases s.len() - i,
        {
            i += 1;
        }
        proof {
            lemma_release_place(s, mem_chunk);
            lemma_release_wf(s, mem_chunk);
            if i > 0 {
                assert(s[i - 1].valid());
            }
            if i < s.len() {
                assert(s[i as int].valid());
            }
        }
        let mut joins_prev = false;
        if i > 0 {
            let prev = self.regions[i - 1];
            joins_prev = prev.start_addr + prev.size == mem_chunk.start_addr;
        }
        let mut joins_next = false;
        if i < self.regions.len() {
            joins_next = mem_chunk.start_addr + mem_chunk.size == self.regions[i].start_addr;
        }
        if joins_prev && joins_next {
            // The chunk bridges two regions: all three become one.
            let prev = self.regions[i - 1];
            let next = self.regions[i];
            self.regions.set(
                i - 1,
                MemChunk { start_addr: prev.start_addr, size: prev.size + mem_chunk.size + next.size },
            );
            self.regions.remove(i);
        } else if joins_prev {
            // The chunk comes immediately after a region: that region grows.
            let prev = self.regions[i - 1];
            self.regions.set(
                i - 1,
                MemChunk { start_addr: prev.start_addr, size: prev.size + mem_chunk.size },
            );
        } else if joins_next {
            // The chunk comes immediately before a region: that region starts earlier.
            let next = self.regions[i];
            self.regions.set(
                i,
                MemChunk { start_addr: mem_chunk.start_addr, size: mem_chunk.size + next.size },
            );
        } else {
            // The chunk touches no region: it becomes a region of its own.
            self.regions.insert(i, mem_chunk);
        }
    }

    /// Allocates `size` bytes of heap memory at an address that is a
    /// multiple of `alignment`, from the first free region that can hold
    /// them. Returns the address, or `None` when no region can.
    pub fn allocate(&mut self, size: usize, alignment: usize) -> (r: Option<usize>)
        requires
            old(self).wf(),
            size > 0,
            alignment > 0,
        ensures
            final(self).wf(),
            r == alloc_addr(old(self)@, size as int, alignment as int),
            final(self)@ == alloc_after(old(self)@, size as int, alignment as int),
            r is Some <==> old(self).can_alloc(size, alignment),
            r is None ==> forall|i: int|
                0 <= i < old(self)@.len() ==> !fits(
                    #[trigger] old(self)@[i],
                    size as int,
                    alignment as int,
                ),
            r matches Some(addr) ==> {
                &&& addr as int % alignment as int == 0
                &&& final(self).is_allocated(addr, size)
                &&& chunk_at(addr, size).bytes().subset_of(free_bytes(old(self)@))
                &&& free_bytes(final(self)@) == free_bytes(old(self)@).difference(
                    chunk_at(addr, size).bytes(),
                )
                &&& forall|a: usize, n: usize| #[trigger]
                    old(self).is_allocated(a, n) ==> chunk_at(addr, size).disjoint(chunk_at(a, n))
            },
            forall|a: usize, n: usize| #[trigger]
                old(self).is_allocated(a, n) ==> final(self).is_allocated(a, n),
    {
        proof {
            let s = self@;
            lemma_first_fit_from(s, 0, size as int, alignment as int);
            lemma_alloc_bytes(s, size, alignment);
            assert forall|a: usize, n: usize| #[trigger] self.is_allocated(a, n) implies {
                &&& disjoint_from_free(
                    alloc_after(s, size as int, alignment as int),
                    chunk_at(a, n),
                )
                &&& alloc_addr(s, size as int, alignment as int) matches Some(addr) ==> chunk_at(
                    addr,
                    size,
                ).disjoint(chunk_at(a, n))
            } by {
                lemma_alloc_keeps_blocks(s, size, alignment, chunk_at(a, n));
            }
        }
        self.find_free_region(size, alignment)
    }

    /// Gives the `size_to_dealloc` bytes at `ptr` back to the heap. The
    /// block is merged with the free regions it touches, so that no two
    /// free regions are ever adjacent.
    pub fn dealloc(&mut self, ptr: usize, size_to_dealloc: usize)
        requires
            old(self).wf(),
            old(self).is_allocated(ptr, size_to_dealloc),
        ensures
            final(self).wf(),
            final(self)@ == release(old(self)@, chunk_at(ptr, size_to_dealloc)),
            free_bytes(final(self)@) == free_bytes(old(self)@).union(
                chunk_at(ptr, size_to_dealloc).bytes(),
            ),
            forall|a: usize, n: usize| #[trigger]
                old(self).is_allocated(a, n) && chunk_at(a, n).disjoint(
                    chunk_at(ptr, size_to_dealloc),
                ) ==> final(self).is_allocated(a, n),
    {
        proof {
            let s = self@;
            let chunk = chunk_at(ptr, size_to_dealloc);
            lemma_release_bytes(s, chunk);
            assert(free_bytes(release(s, chunk)) =~= free_bytes(s).union(chunk.bytes()));
            assert forall|a: usize, n: usize| #[trigger]
                self.is_allocated(a, n) && chunk_at(a, n).disjoint(
                    chunk,
                ) implies disjoint_from_free(release(s, chunk), chunk_at(a, n)) by {
                lemma_release_keeps_blocks(s, chunk, chunk_at(a, n));
            }
        }
        self.add_free_region(MemChunk { start_addr: ptr, size: size_to_dealloc });
    }
}

} // verus!
