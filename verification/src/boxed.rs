//! An owning container for one value that accounts for a block of the heap.
//!
//! The block is bookkeeping: it has the size and the alignment of the value,
//! and the value itself is held by the box.
use crate::allocator::{
    alloc_addr, alloc_after, chunk_at, free_bytes, release, LinkedListAllocator, MemChunk,
};
use vstd::layout::{align_of, layout_for_type_is_valid, size_of};
use vstd::prelude::*;
use vstd::std_specs::cmp::{PartialEqSpec, PartialEqSpecImpl};

verus! {

/// One value of type `T`, and the `size_of::<T>()` bytes of the heap at the
/// box's address, which the box owns until it is dropped or turned into its
/// raw parts.
#[derive(Debug)]
pub struct Box<T> {
    ptr: usize,
    val: T,
}

impl<T> View for Box<T> {
    type V = T;

    /// The value in the box.
    closed spec fn view(&self) -> T {
        self.val
    }
}

impl<T> Box<T> {
    /// The address of the value.
    pub closed spec fn spec_ptr(&self) -> usize {
        self.ptr
    }

    /// The block of the heap that the value takes.
    pub open spec fn block(&self) -> MemChunk {
        chunk_at(self.spec_ptr(), size_of::<T>() as usize)
    }

    /// Whether the box's block is one that `allocator` has handed out and
    /// not got back.
    pub open spec fn owned_in(&self, allocator: &LinkedListAllocator) -> bool {
        allocator.is_allocated(self.block().start_addr, self.block().size)
    }

    /// Allocates heap memory for `val` and takes `val` into the box.
    pub fn new(val: T, allocator: &mut LinkedListAllocator) -> (b: Box<T>)
        requires
            old(allocator).wf(),
            size_of::<T>() > 0,
            old(allocator).can_alloc(size_of::<T>() as usize, align_of::<T>() as usize),
        ensures
            b@ == val,
            Some(b.spec_ptr()) == alloc_addr(
                old(allocator)@,
                size_of::<T>() as int,
                align_of::<T>() as int,
            ),
            final(allocator)@ == alloc_after(
                old(allocator)@,
                size_of::<T>() as int,
                align_of::<T>() as int,
            ),
            final(allocator).wf(),
            b.owned_in(final(allocator)),
            forall|a: usize, n: usize| #[trigger]
                old(allocator).is_allocated(a, n) ==> final(allocator).is_allocated(a, n)
                    && b.block().disjoint(chunk_at(a, n)),
    {
        layout_for_type_is_valid::<T>();
        let ptr = allocator.allocate(core::mem::size_of::<T>(), core::mem::align_of::<T>()).unwrap();
        Box { ptr, val }
    }

    /// The address of the value.
    #[verifier::when_used_as_spec(spec_ptr)]
    pub fn as_ptr(&self) -> (ptr: usize)
        ensures
            ptr == self.spec_ptr(),
    {
        self.ptr
    }

    /// Consumes the box and returns its raw parts: the address of its block
    /// and its value. Nothing is deallocated: the block stays handed
    /// out, and is owned by whoever holds the parts.
    pub fn into_raw(b: Box<T>) -> (raw: (usize, T))
        ensures
            raw.0 == b.spec_ptr(),
            raw.1 == b@,
    {
        (b.ptr, b.val)
    }

    /// Creates a box from the raw parts of one: the address of a block on
    /// the heap and the value that the block is for.
    pub fn from_raw(ptr: usize, val: T) -> (b: Box<T>)
        ensures
            b.spec_ptr() == ptr,
            b@ == val,
    {
        Box { ptr, val }
    }

    /// The value in the box, for writing.
    pub fn deref_mut(&mut self) -> (val: &mut T)
        ensures
            *val == old(self)@,
            final(self)@ == *final(val),
            final(self).spec_ptr() == old(self).spec_ptr(),
    {
        &mut self.val
    }

    /// Gives the box's block back to the heap.
    pub fn drop(self, allocator: &mut LinkedListAllocator)
        requires
            old(allocator).wf(),
            self.owned_in(old(allocator)),
        ensures
            final(allocator).wf(),
            final(allocator)@ == release(old(allocator)@, self.block()),
            free_bytes(final(allocator)@) == free_bytes(old(allocator)@).union(self.block().bytes()),
            forall|a: usize, n: usize| #[trigger]
                old(allocator).is_allocated(a, n) && chunk_at(a, n).disjoint(self.block())
                    ==> final(allocator).is_allocated(a, n),
    {
        layout_for_type_is_valid::<T>();
        allocator.dealloc(self.ptr, core::mem::size_of::<T>());
    }
}

impl<T> core::ops::Deref for Box<T> {
    type Target = T;

    /// The value in the box.
    fn deref(&self) -> (val: &T)
        ensures
            *val == self@,
    {
        &self.val
    }
}

impl<T: PartialEq> PartialEq<Box<T>> for Box<T> {
    /// Two boxes are equal when their values are, wherever they lie.
    fn eq(&self, other: &Box<T>) -> (r: bool) {
        self.val == other.val
    }
}

impl<T: PartialEq> PartialEqSpecImpl<Box<T>> for Box<T> {
    open spec fn obeys_eq_spec() -> bool {
        T::obeys_eq_spec()
    }

    open spec fn eq_spec(&self, other: &Box<T>) -> bool {
        self@.eq_spec(&other@)
    }
}

impl<T: PartialEq> PartialEq<T> for Box<T> {
    /// A box equals a value when the value in the box does.
    fn eq(&self, other: &T) -> (r: bool) {
        self.val == *other
    }
}

impl<T: PartialEq> PartialEqSpecImpl<T> for Box<T> {
    open spec fn obeys_eq_spec() -> bool {
        T::obeys_eq_spec()
    }

    open spec fn eq_spec(&self, other: &T) -> bool {
        self@.eq_spec(other)
    }
}

} // verus!
