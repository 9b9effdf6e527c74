//! A growable array that accounts for its buffer on the heap.
//!
//! The array accounts for `capacity * size_of::<T>()` bytes of the heap,
//! from `as_ptr()` on. The block is bookkeeping: the items themselves are
//! held by the array. When an item is pushed onto a full array, a block of
//! twice the size is allocated, the items move to a new list, and the old
//! block is given back.
use crate::allocator::{
    alloc_addr, alloc_after, chunk_at, free_bytes, release, LinkedListAllocator,
};
use vstd::layout::{align_of, layout_for_type_is_valid, size_of};
use vstd::prelude::*;
use vstd::std_specs::cmp::{PartialEqSpec, PartialEqSpecImpl};

verus! {

/// The iterator over mutable references of a slice's items, of which Verus
/// is told nothing but that the type exists.
#[verifier::external_type_specification]
#[verifier::external_body]
#[verifier::reject_recursive_types(T)]
pub struct ExIterMut<'a, T: 'a>(core::slice::IterMut<'a, T>);

/// A growable array with a buffer on the heap.
#[derive(Debug)]
pub struct Vec<T> {
    items: std::vec::Vec<T>,
    capacity: usize,
    start_addr: usize,
}

impl<T> View for Vec<T> {
    type V = Seq<T>;

    /// The items, first to last.
    closed spec fn view(&self) -> Seq<T> {
        self.items@
    }
}

/// The number of bytes that a buffer for `capacity` items of type `T` takes.
pub open spec fn buffer_size<T>(capacity: int) -> int {
    capacity * size_of::<T>()
}

impl<T> Vec<T> {
    /// The number of items the buffer has room for.
    pub closed spec fn spec_capacity(&self) -> usize {
        self.capacity
    }

    /// The address of the buffer.
    pub closed spec fn spec_as_ptr(&self) -> usize {
        self.start_addr
    }

    /// The number of items.
    pub open spec fn spec_len(&self) -> usize {
        self@.len() as usize
    }

    /// The invariant of the array: the items fit in the buffer, and the
    /// buffer is a block of at least one byte that fits in the address space.
    pub open spec fn wf(&self) -> bool {
        &&& self@.len() <= self.spec_capacity()
        &&& 0 < buffer_size::<T>(self.spec_capacity() as int) <= usize::MAX
    }

    /// The block of the heap that the buffer takes.
    pub open spec fn buffer(&self) -> crate::allocator::MemChunk {
        chunk_at(self.spec_as_ptr(), buffer_size::<T>(self.spec_capacity() as int) as usize)
    }

    /// Whether the array's buffer is a block that `allocator` has handed out
    /// and not got back.
    pub open spec fn owns_buffer_in(&self, allocator: &LinkedListAllocator) -> bool {
        allocator.is_allocated(self.buffer().start_addr, self.buffer().size)
    }

    /// Creates a vector with the stated capacity.
    pub fn with_capacity(capacity: usize, allocator: &mut LinkedListAllocator) -> (v: Vec<T>)
        requires
            old(allocator).wf(),
            0 < buffer_size::<T>(capacity as int) <= usize::MAX,
            old(allocator).can_alloc(
                buffer_size::<T>(capacity as int) as usize,
                align_of::<T>() as usize,
            ),
        ensures
            v.wf(),
            v@ == Seq::<T>::empty(),
            v.spec_capacity() == capacity,
            Some(v.spec_as_ptr()) == alloc_addr(
                old(allocator)@,
                buffer_size::<T>(capacity as int),
                align_of::<T>() as int,
            ),
            final(allocator)@ == alloc_after(
                old(allocator)@,
                buffer_size::<T>(capacity as int),
                align_of::<T>() as int,
            ),
            final(allocator).wf(),
            v.owns_buffer_in(final(allocator)),
            forall|a: usize, n: usize| #[trigger]
                old(allocator).is_allocated(a, n) ==> final(allocator).is_allocated(a, n)
                    && v.buffer().disjoint(chunk_at(a, n)),
    {
        layout_for_type_is_valid::<T>();
        assert(size_of::<T>() * capacity == capacity * size_of::<T>()) by (nonlinear_arith);
        // Allocate heap memory to hold `capacity` items of type `T`
        let start_addr = allocator.allocate(
            core::mem::size_of::<T>() * capacity,
            core::mem::align_of::<T>(),
        ).unwrap();
        Vec { items: std::vec::Vec::new(), capacity, start_addr }
    }

    /// Adds an item to the end of the vector. A full vector first moves to
    /// a buffer of twice the capacity.
    pub fn push(&mut self, item: T, allocator: &mut LinkedListAllocator)
        requires
            old(self).wf(),
            old(allocator).wf(),
            old(self).owns_buffer_in(old(allocator)),
            old(self)@.len() == old(self).spec_capacity() ==> {
                &&& buffer_size::<T>(2 * old(self).spec_capacity()) <= usize::MAX
                &&& old(allocator).can_alloc(
                    buffer_size::<T>(2 * old(self).spec_capacity()) as usize,
                    align_of::<T>() as usize,
                )
            },
        ensures
            final(self).wf(),
            final(allocator).wf(),
            final(self).owns_buffer_in(final(allocator)),
            final(self)@ == old(self)@.push(item),
            old(self)@.len() < old(self).spec_capacity() ==> {
                &&& final(self).spec_capacity() == old(self).spec_capacity()
                &&& final(self).spec_as_ptr() == old(self).spec_as_ptr()
                &&& final(allocator)@ == old(allocator)@
            },
            old(self)@.len() == old(self).spec_capacity() ==> {
                &&& final(self).spec_capacity() == 2 * old(self).spec_capacity()
                &&& Some(final(self).spec_as_ptr()) == alloc_addr(
                    old(allocator)@,
                    buffer_size::<T>(2 * old(self).spec_capacity()),
                    align_of::<T>() as int,
                )
                &&& final(allocator)@ == release(
                    alloc_after(
                        old(allocator)@,
                        buffer_size::<T>(2 * old(self).spec_capacity()),
                        align_of::<T>() as int,
                    ),
                    old(self).buffer(),
                )
            },
            forall|a: usize, n: usize| #[trigger]
                old(allocator).is_allocated(a, n) && chunk_at(a, n).disjoint(old(self).buffer())
                    ==> final(allocator).is_allocated(a, n) && chunk_at(a, n).disjoint(
                    final(self).buffer(),
                ),
    {
        if self.capacity <= self.items.len() {
            layout_for_type_is_valid::<T>();
            assert(self.capacity * 2 <= usize::MAX && size_of::<T>() * (self.capacity * 2) == 2
                * (self.capacity * size_of::<T>())) by (nonlinear_arith)
                requires
                    0 < self.capacity * size_of::<T>(),
                    (2 * self.capacity) * size_of::<T>() <= usize::MAX,
            ;
            assert(buffer_size::<T>(2 * self.capacity) == 2 * buffer_size::<T>(
                self.capacity as int,
            )) by (nonlinear_arith);
            // Allocate double the capacity
            let new_capacity = self.capacity * 2;
            let old_size = self.capacity * core::mem::size_of::<T>();
            let old_start_addr = self.start_addr;
            let new_start_addr = allocator.allocate(
                core::mem::size_of::<T>() * new_capacity,
                core::mem::align_of::<T>(),
            ).unwrap();
            // Move the items into a new list
            let mut items = std::vec::Vec::new();
            items.append(&mut self.items);
            assert(items@ =~= old(self)@);
            // Deallocate the previous heap memory
            allocator.dealloc(old_start_addr, old_size);
            // Update the fields to reflect the new capacity and heap memory
            self.capacity = new_capacity;
            self.start_addr = new_start_addr;
            self.items = items;
        }
        self.items.push(item);
    }

    /// Removes and returns the last item in the vector.
    pub fn pop(&mut self) -> (item: T)
        requires
            old(self)@.len() > 0,
        ensures
            item == old(self)@.last(),
            final(self)@ == old(self)@.drop_last(),
            final(self).spec_capacity() == old(self).spec_capacity(),
            final(self).spec_as_ptr() == old(self).spec_as_ptr(),
    {
        self.items.pop().unwrap()
    }

    /// Removes and returns the last item in the vector. When there are no
    /// items in the vector, `None` is returned.
    pub fn try_pop(&mut self) -> (item: Option<T>)
        ensures
            old(self)@.len() == 0 ==> item is None && final(self)@ == old(self)@,
            old(self)@.len() > 0 ==> item == Some(old(self)@.last()) && final(self)@ == old(
                self,
            )@.drop_last(),
            final(self).spec_capacity() == old(self).spec_capacity(),
            final(self).spec_as_ptr() == old(self).spec_as_ptr(),
    {
        if self.items.len() == 0 {
            None
        } else {
            Some(self.pop())
        }
    }

    /// Removes the item at index `idx` and returns it. The items after it
    /// move down by one place and keep their order.
    pub fn remove(&mut self, idx: usize) -> (item: T)
        requires
            idx < old(self)@.len(),
        ensures
            item == old(self)@[idx as int],
            final(self)@ == old(self)@.remove(idx as int),
            final(self)@.len() == old(self)@.len() - 1,
            forall|i: int| 0 <= i < idx ==> final(self)@[i] == old(self)@[i],
            forall|i: int| idx <= i < final(self)@.len() ==> final(self)@[i] == old(self)@[i + 1],
            final(self).spec_capacity() == old(self).spec_capacity(),
            final(self).spec_as_ptr() == old(self).spec_as_ptr(),
    {
        self.items.remove(idx)
    }

    /// The item at index `idx`.
    pub fn index(&self, idx: usize) -> (item: &T)
        requires
            idx < self@.len(),
        ensures
            *item == self@[idx as int],
    {
        &self.items[idx]
    }

    /// The item at index `idx`, for writing.
    pub fn index_mut(&mut self, idx: usize) -> (item: &mut T)
        requires
            idx < old(self)@.len(),
        ensures
            *item == old(self)@[idx as int],
            final(self)@ == old(self)@.update(idx as int, *final(item)),
            final(self).spec_capacity() == old(self).spec_capacity(),
            final(self).spec_as_ptr() == old(self).spec_as_ptr(),
    {
        &mut self.items[idx]
    }

    /// Creates a new iterator over the references of the vector's items,
    /// first to last.
    pub fn iter(&self) -> (iter: core::slice::Iter<'_, T>)
        ensures
            vstd::std_specs::slice::into_iter_elts(iter) == self@,
    {
        self.items.iter()
    }

    /// Creates a new iterator over mutable references of the vector's
    /// items, first to last. Wraps the `iter_mut` of slices, whose iterator
    /// hands out each item for writing and can neither add nor remove one:
    /// the number of items, the capacity and the buffer stay as they are.
    #[verifier::external_body]
    pub fn iter_mut(&mut self) -> (iter: core::slice::IterMut<'_, T>)
        ensures
            final(self)@.len() == old(self)@.len(),
            final(self).spec_capacity() == old(self).spec_capacity(),
            final(self).spec_as_ptr() == old(self).spec_as_ptr(),
    {
        self.items.iter_mut()
    }

    /// A vector with a buffer of its own, of the same capacity, and with a
    /// clone of each item, in the same order.
    pub fn clone(&self, allocator: &mut LinkedListAllocator) -> (copy: Vec<T>) where T: Clone
        requires
            self.wf(),
            old(allocator).wf(),
            old(allocator).can_alloc(
                buffer_size::<T>(self.spec_capacity() as int) as usize,
                align_of::<T>() as usize,
            ),
        ensures
            copy.wf(),
            copy.spec_capacity() == self.spec_capacity(),
            copy@.len() == self@.len(),
            forall|i: int| 0 <= i < self@.len() ==> cloned(self@[i], #[trigger] copy@[i]),
            Some(copy.spec_as_ptr()) == alloc_addr(
                old(allocator)@,
                buffer_size::<T>(self.spec_capacity() as int),
                align_of::<T>() as int,
            ),
            final(allocator)@ == alloc_after(
                old(allocator)@,
                buffer_size::<T>(self.spec_capacity() as int),
                align_of::<T>() as int,
            ),
            final(allocator).wf(),
            copy.owns_buffer_in(final(allocator)),
            forall|a: usize, n: usize| #[trigger]
                old(allocator).is_allocated(a, n) ==> final(allocator).is_allocated(a, n)
                    && copy.buffer().disjoint(chunk_at(a, n)),
    {
        let mut copy = Vec::with_capacity(self.capacity, allocator);
        let ghost start_addr = copy.start_addr;
        let mut i: usize = 0;
        while i < self.items.len()
            invariant
                i <= self@.len(),
                copy.items@.len() == i,
                copy.capacity == self.capacity,
                copy.start_addr == start_addr,
                forall|j: int| 0 <= j < i ==> cloned(self@[j], #[trigger] copy.items@[j]),
            decreases self@.len() - i,
        {
            copy.items.push(self.items[i].clone());
            i += 1;
        }
        copy
    }

    /// Gives the buffer back to the heap. The items go with the vector.
    pub fn drop(self, allocator: &mut LinkedListAllocator)
        requires
            self.wf(),
            old(allocator).wf(),
            self.owns_buffer_in(old(allocator)),
        ensures
            final(allocator).wf(),
            final(allocator)@ == release(old(allocator)@, self.buffer()),
            free_bytes(final(allocator)@) == free_bytes(old(allocator)@).union(self.buffer().bytes()),
            forall|a: usize, n: usize| #[trigger]
                old(allocator).is_allocated(a, n) && chunk_at(a, n).disjoint(self.buffer())
                    ==> final(allocator).is_allocated(a, n),
    {
        layout_for_type_is_valid::<T>();
        allocator.dealloc(self.start_addr, self.capacity * core::mem::size_of::<T>());
    }

    /// Returns the number of items in the vector.
    #[verifier::when_used_as_spec(spec_len)]
    pub fn len(&self) -> (len: usize)
        ensures
            len == self@.len(),
    {
        self.items.len()
    }

    /// Returns the capacity of the vector.
    #[verifier::when_used_as_spec(spec_capacity)]
    pub fn capacity(&self) -> (capacity: usize)
        ensures
            capacity == self.spec_capacity(),
    {
        self.capacity
    }

    /// Returns the address of the vector's data.
    #[verifier::when_used_as_spec(spec_as_ptr)]
    pub fn as_ptr(&self) -> (ptr: usize)
        ensures
            ptr == self.spec_as_ptr(),
    {
        self.start_addr
    }
}

impl<T: PartialEq> PartialEq<Vec<T>> for Vec<T> {
    /// Two vectors are equal when they have the same number of items and
    /// equal items at every index, whatever their capacities and buffers.
    fn eq(&self, other: &Vec<T>) -> (r: bool) {
        if self.len() != other.len() {
            return false;
        }
        let mut i: usize = 0;
        while i < self.items.len()
            invariant
                i <= self@.len(),
                self@.len() == other@.len(),
                T::obeys_eq_spec() ==> forall|j: int|
                    0 <= j < i ==> (#[trigger] self@[j]).eq_spec(&other@[j]),
            decreases self@.len() - i,
        {
            if !(self.items[i] == other.items[i]) {
                return false;
            }
            i += 1;
        }
        true
    }
}

impl<T: PartialEq> PartialEqSpecImpl<Vec<T>> for Vec<T> {
    open spec fn obeys_eq_spec() -> bool {
        T::obeys_eq_spec()
    }

    open spec fn eq_spec(&self, other: &Vec<T>) -> bool {
        &&& self@.len() == other@.len()
        &&& forall|i: int| 0 <= i < self@.len() ==> (#[trigger] self@[i]).eq_spec(&other@[i])
    }
}

} // verus!
