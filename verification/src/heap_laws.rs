//! What holds of the allocator over whole histories of requests.
//!
//! The statements are over the model of the free list in
//! [`crate::allocator`]: `alloc_addr`, `alloc_after` and `release`, of which
//! the allocator's methods promise that they are what the methods compute.
use crate::allocator::{
    align_up, alloc_addr, alloc_after, carve, chunk_at, disjoint_from_free, first_fit, fits,
    free_list_wf, is_free, lemma_align_up, lemma_alloc_bytes, lemma_alloc_keeps_blocks,
    lemma_bytes_by_disjoint, lemma_carve, lemma_disjoint_by_bytes, lemma_first_fit_from,
    lemma_insert_pos_is, lemma_release_bytes, lemma_release_keeps_blocks, lemma_release_wf,
    release, MemChunk,
};
use vstd::prelude::*;

verus! {

/// Allocating a block and giving it back at once restores the free list:
/// the same regions with the same boundaries.
pub proof fn lemma_alloc_dealloc_restores(s: Seq<MemChunk>, size: usize, align: usize)
    requires
        free_list_wf(s),
        size > 0,
        align > 0,
        alloc_addr(s, size as int, align as int) is Some,
    ensures
        release(
            alloc_after(s, size as int, align as int),
            chunk_at(alloc_addr(s, size as int, align as int)->0, size),
        ) == s,
{
    let i = first_fit(s, size as int, align as int);
    lemma_first_fit_from(s, 0, size as int, align as int);
    lemma_align_up(s[i].start_addr as int, align as int);
    assert(s[i].valid());
    if i > 0 {
        assert(s[i - 1].end() < s[i].start_addr);
    }
    if i + 1 < s.len() {
        assert(s[i].end() < s[i + 1].start_addr);
    }
    assert forall|j: int| 0 <= j < i implies (#[trigger] s[j]).start_addr <= s[i].start_addr by {
        assert(s[j].valid());
        assert(s[j].end() < s[i].start_addr);
    }
    lemma_carve_release(s, i, size as int, align as int);
}

/// Giving back the block that was carved out of region `i` undoes the
/// carving, when the region's neighbours do not touch it.
proof fn lemma_carve_release(s: Seq<MemChunk>, i: int, size: int, align: int)
    requires
        0 <= i < s.len(),
        0 < size <= usize::MAX,
        align > 0,
        s[i].valid(),
        fits(s[i], size, align),
        s[i].start_addr <= align_up(s[i].start_addr as int, align),
        forall|j: int| 0 <= j < i ==> (#[trigger] s[j]).start_addr <= s[i].start_addr,
        i > 0 ==> s[i - 1].end() < s[i].start_addr,
        i + 1 < s.len() ==> s[i].end() < s[i + 1].start_addr,
    ensures
        release(
            carve(s, i, size, align),
            chunk_at(align_up(s[i].start_addr as int, align) as usize, size as usize),
        ) == s,
{
    let c = s[i];
    let addr = align_up(c.start_addr as int, align);
    let t = carve(s, i, size, align);
    let block = chunk_at(addr as usize, size as usize);
    let head = addr - c.start_addr;
    let tail = c.end() - (addr + size);
    if head == 0 && tail == 0 {
        assert forall|j: int| 0 <= j < i implies (#[trigger] t[j]).start_addr <= addr by {
            assert(t[j] == s[j]);
        }
        lemma_insert_pos_is(t, 0, i, addr);
        assert(release(t, block) =~= s);
    } else if tail == 0 {
        assert forall|j: int| 0 <= j < i + 1 implies (#[trigger] t[j]).start_addr <= addr by {
            if j < i {
                assert(t[j] == s[j]);
            }
        }
        lemma_insert_pos_is(t, 0, i + 1, addr);
        assert(release(t, block) =~= s);
    } else if head == 0 {
        assert forall|j: int| 0 <= j < i implies (#[trigger] t[j]).start_addr <= addr by {
            assert(t[j] == s[j]);
        }
        lemma_insert_pos_is(t, 0, i, addr);
        assert(release(t, block) =~= s);
    } else {
        assert forall|j: int| 0 <= j < i + 1 implies (#[trigger] t[j]).start_addr <= addr by {
            if j < i {
                assert(t[j] == s[j]);
            }
        }
        lemma_insert_pos_is(t, 0, i + 1, addr);
        assert(release(t, block) =~= s);
    }
}

/// A copy outlives its original: when a block is allocated while the block
/// `original` is handed out, and `original` is then given back, the new
/// block shares no byte with `original` and is still handed out.
pub proof fn lemma_copy_outlives_original(
    s: Seq<MemChunk>,
    original: MemChunk,
    size: usize,
    align: usize,
)
    requires
        free_list_wf(s),
        original.valid(),
        disjoint_from_free(s, original),
        size > 0,
        align > 0,
        alloc_addr(s, size as int, align as int) is Some,
    ensures
        chunk_at(alloc_addr(s, size as int, align as int)->0, size).valid(),
        chunk_at(alloc_addr(s, size as int, align as int)->0, size).disjoint(original),
        free_list_wf(release(alloc_after(s, size as int, align as int), original)),
        disjoint_from_free(
            release(alloc_after(s, size as int, align as int), original),
            chunk_at(alloc_addr(s, size as int, align as int)->0, size),
        ),
{
    let after = alloc_after(s, size as int, align as int);
    let copy = chunk_at(alloc_addr(s, size as int, align as int)->0, size);
    lemma_alloc_bytes(s, size, align);
    lemma_alloc_keeps_blocks(s, size, align, original);
    lemma_release_wf(after, original);
    lemma_release_keeps_blocks(after, original, copy);
}

/// The heap as a history sees it: the free list, and the blocks that were
/// handed out and not yet given back.
pub struct Heap {
    pub free: Seq<MemChunk>,
    pub live: Set<MemChunk>,
}

/// One request to the allocator.
pub enum HeapOp {
    Alloc { size: usize, align: usize },
    Dealloc { chunk: MemChunk },
}

/// The heap right after `region` was donated: all of it free, nothing live.
pub open spec fn fresh_heap(region: MemChunk) -> Heap {
    Heap { free: seq![region], live: Set::empty() }
}

/// A request is allowed when it asks for at least one byte at a nonzero
/// alignment, or gives back a block that is live: one that an allocation
/// returned and that was not given back since.
pub open spec fn op_allowed(h: Heap, op: HeapOp) -> bool {
    match op {
        HeapOp::Alloc { size, align } => size > 0 && align > 0,
        HeapOp::Dealloc { chunk } => h.live.contains(chunk),
    }
}

/// The heap after one request.
pub open spec fn step(h: Heap, op: HeapOp) -> Heap {
    match op {
        HeapOp::Alloc { size, align } => match alloc_addr(h.free, size as int, align as int) {
            Some(addr) => Heap {
                free: alloc_after(h.free, size as int, align as int),
                live: h.live.insert(chunk_at(addr, size)),
            },
            None => h,
        },
        HeapOp::Dealloc { chunk } => Heap {
            free: release(h.free, chunk),
            live: h.live.remove(chunk),
        },
    }
}

/// Whether every request of `ops` is allowed at the time it is made.
pub open spec fn trace_allowed(h: Heap, ops: Seq<HeapOp>) -> bool
    decreases ops.len(),
{
    ops.len() == 0 || (op_allowed(h, ops[0]) && trace_allowed(step(h, ops[0]), ops.drop_first()))
}

/// The heap after the requests `ops`, in order.
pub open spec fn run(h: Heap, ops: Seq<HeapOp>) -> Heap
    decreases ops.len(),
{
    if ops.len() == 0 {
        h
    } else {
        run(step(h, ops[0]), ops.drop_first())
    }
}

/// Whether byte address `a` lies in a live block.
pub open spec fn is_live(live: Set<MemChunk>, a: int) -> bool {
    exists|b: MemChunk| live.contains(b) && #[trigger] b.contains(a)
}

/// Conservation: the free list is well formed, live blocks are valid and
/// share no byte with each other or with a free region, and the free and
/// the live bytes together are exactly the bytes of `region`.
pub open spec fn conserved(region: MemChunk, h: Heap) -> bool {
    &&& free_list_wf(h.free)
    &&& forall|b: MemChunk| #[trigger]
        h.live.contains(b) ==> b.valid() && disjoint_from_free(h.free, b)
    &&& forall|b: MemChunk, c: MemChunk|
        #![trigger h.live.contains(b), h.live.contains(c)]
        h.live.contains(b) && h.live.contains(c) && b != c ==> b.disjoint(c)
    &&& forall|a: int| region.contains(a) <==> is_free(h.free, a) || is_live(h.live, a)
}

/// A fresh heap is conserved.
pub proof fn lemma_conserved_fresh(region: MemChunk)
    requires
        region.valid(),
    ensures
        conserved(region, fresh_heap(region)),
{
    let h = fresh_heap(region);
    assert forall|a: int| region.contains(a) <==> is_free(h.free, a) || is_live(h.live, a) by {
        if region.contains(a) {
            assert(h.free[0].contains(a));
        }
    }
}

/// An allowed request keeps the heap conserved.
pub proof fn lemma_conserved_step(region: MemChunk, h: Heap, op: HeapOp)
    requires
        conserved(region, h),
        op_allowed(h, op),
    ensures
        conserved(region, step(h, op)),
{
    let h2 = step(h, op);
    match op {
        HeapOp::Alloc { size, align } => {
            let i = first_fit(h.free, size as int, align as int);
            lemma_first_fit_from(h.free, 0, size as int, align as int);
            if i < h.free.len() {
                lemma_carve(h.free, i, size as int, align as int);
                let addr = align_up(h.free[i].start_addr as int, align as int);
                let block = chunk_at(addr as usize, size);
                assert(h.free[i].valid());
                assert(block.valid());
                assert forall|a: int| block.contains(a) implies is_free(h.free, a) by {
                    assert(h.free[i].contains(a));
                }
                assert(!h.live.contains(block)) by {
                    if h.live.contains(block) {
                        assert(h.free[i].disjoint(block));
                    }
                }
                assert forall|b: MemChunk| #[trigger] h2.live.contains(b) implies b.valid()
                    && disjoint_from_free(h2.free, b) by {
                    if b != block {
                        lemma_bytes_by_disjoint(h.free, b);
                    }
                    lemma_disjoint_by_bytes(h2.free, b);
                }
                assert forall|b: MemChunk, c: MemChunk|
                    h2.live.contains(b) && h2.live.contains(c) && b != c implies b.disjoint(c) by {
                    if b == block {
                        assert(h.live.contains(c));
                        assert(h.free[i].disjoint(c));
                    } else if c == block {
                        assert(h.live.contains(b));
                        assert(h.free[i].disjoint(b));
                    }
                }
                assert forall|a: int|
                    region.contains(a) <==> is_free(h2.free, a) || is_live(h2.live, a) by {
                    if is_live(h2.live, a) {
                        let b = choose|b: MemChunk| h2.live.contains(b) && #[trigger] b.contains(a);
                        if b != block {
                            assert(h.live.contains(b));
                            assert(is_live(h.live, a));
                        }
                    }
                    if is_live(h.live, a) {
                        let b = choose|b: MemChunk| h.live.contains(b) && #[trigger] b.contains(a);
                        assert(h2.live.contains(b));
                    }
                    if block.contains(a) {
                        assert(h2.live.contains(block));
                    }
                }
            }
        },
        HeapOp::Dealloc { chunk } => {
            lemma_release_wf(h.free, chunk);
            lemma_release_bytes(h.free, chunk);
            assert forall|b: MemChunk| #[trigger] h2.live.contains(b) implies b.valid()
                && disjoint_from_free(h2.free, b) by {
                assert(h.live.contains(b) && b != chunk);
                assert(b.disjoint(chunk));
                lemma_bytes_by_disjoint(h.free, b);
                lemma_disjoint_by_bytes(h2.free, b);
            }
            assert forall|a: int|
                region.contains(a) <==> is_free(h2.free, a) || is_live(h2.live, a) by {
                if is_live(h2.live, a) {
                    let b = choose|b: MemChunk| h2.live.contains(b) && #[trigger] b.contains(a);
                    assert(h.live.contains(b));
                    assert(is_live(h.live, a));
                }
                if is_live(h.live, a) {
                    let b = choose|b: MemChunk| h.live.contains(b) && #[trigger] b.contains(a);
                    if b != chunk {
                        assert(h2.live.contains(b));
                    }
                }
                if chunk.contains(a) {
                    assert(is_live(h.live, a));
                }
            }
        },
    }
}

/// Conservation over any history: however allocations and deallocations are
/// interleaved, as long as every deallocation gives back a live block, the
/// free and the live byte ranges together are exactly the donated region,
/// and no two of them overlap.
pub proof fn lemma_conservation(region: MemChunk, h: Heap, ops: Seq<HeapOp>)
    requires
        conserved(region, h),
        trace_allowed(h, ops),
    ensures
        conserved(region, run(h, ops)),
    decreases ops.len(),
{
    if ops.len() > 0 {
        lemma_conserved_step(region, h, ops[0]);
        lemma_conservation(region, step(h, ops[0]), ops.drop_first());
    }
}

} // verus!
