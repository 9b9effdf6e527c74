//! A uniform, ownable handle over any closure that takes an event.
//!
//! A handle accounts for one block of the heap: room for a table of three
//! operations (call, drop, clone) and, behind it, for the closure's captured
//! state. The block is bookkeeping. The closure itself is held by the
//! handle, behind a trait object through which it is called, so that the
//! handle does not name the closure's type. The block's size and alignment
//! are kept in the handle for dropping and cloning.
//!
//! Whether a handle over a closure may be cloned at all is an open question
//! of this design: a byte-wise duplicate of a closure that captures an
//! exclusive reference would break the promise of that reference. The
//! question is not settled here for closures in general. What this library
//! takes is the part on which the answer is not in doubt: closures that are
//! `Fn` and `Copy`, whose captured state can be duplicated byte by byte and
//! is changed by no call. For such a closure a byte-wise duplicate and the
//! closure itself cannot be told apart, so the clones of a handle share one
//! closure, while each clone accounts for a block of its own. Closures that
//! are `FnMut`, or that are not `Copy`, are refused at compile time.
use crate::allocator::{
    align_up, alloc_addr, alloc_after, chunk_at, free_bytes, lemma_align_up, release,
    LinkedListAllocator, MemChunk,
};
use crate::event_hook::EventInfo;
use std::rc::Rc;
use vstd::layout::{align_of, layout_for_type_is_valid, size_of};
use vstd::prelude::*;

verus! {

/// The number of entries of the operation table: call, drop and clone.
pub const TABLE_ENTRIES: usize = 3;

/// The alignment of the block for a closure of type `F`: that of the
/// table's entries or that of the closure, whichever is larger.
pub open spec fn callable_align<F>() -> int {
    if align_of::<F>() > align_of::<usize>() {
        align_of::<F>() as int
    } else {
        align_of::<usize>() as int
    }
}

/// The size of the block for a closure of type `F`: the table, then the
/// closure at the closest offset that is aligned for it, then padding up to
/// the block's alignment.
pub open spec fn callable_size<F>() -> int {
    align_up(
        align_up(TABLE_ENTRIES * size_of::<usize>(), align_of::<F>() as int) + size_of::<F>(),
        callable_align::<F>(),
    )
}

/// The closest multiple of `align` at or above `n`, or `None` when it does
/// not fit in a `usize`.
fn round_up(n: usize, align: usize) -> (r: Option<usize>)
    requires
        align > 0,
    ensures
        r matches Some(m) ==> m == align_up(n as int, align as int),
        r is None ==> align_up(n as int, align as int) > usize::MAX,
{
    let rem = n % align;
    if rem == 0 {
        Some(n)
    } else if align - rem <= usize::MAX - n {
        Some(n + (align - rem))
    } else {
        None
    }
}

/// The size and the alignment of the block for a closure of type `F`, or
/// `None` when the size does not fit in a `usize`.
pub fn callable_layout<F>() -> (r: Option<(usize, usize)>)
    ensures
        r matches Some((size, align)) ==> size == callable_size::<F>() && align
            == callable_align::<F>() && size > 0 && align > 0,
        r is None ==> callable_size::<F>() > usize::MAX,
{
    layout_for_type_is_valid::<F>();
    layout_for_type_is_valid::<usize>();
    let word = core::mem::size_of::<usize>();
    let align = if core::mem::align_of::<F>() > core::mem::align_of::<usize>() {
        core::mem::align_of::<F>()
    } else {
        core::mem::align_of::<usize>()
    };
    proof {
        broadcast use vstd::layout::layout_of_primitives;

        lemma_align_up(TABLE_ENTRIES * size_of::<usize>(), align_of::<F>() as int);
        lemma_align_up(
            align_up(TABLE_ENTRIES * size_of::<usize>(), align_of::<F>() as int) + size_of::<F>(),
            callable_align::<F>(),
        );
    }
    if word > usize::MAX / TABLE_ENTRIES {
        return None;
    }
    let offset = match round_up(TABLE_ENTRIES * word, core::mem::align_of::<F>()) {
        Some(offset) => offset,
        None => { return None; },
    };
    if core::mem::size_of::<F>() > usize::MAX - offset {
        return None;
    }
    match round_up(offset + core::mem::size_of::<F>(), align) {
        Some(size) => Some((size, align)),
        None => None,
    }
}

/// The call entry of the table: the one operation that depends on the
/// closure's type.
trait BaseFn {
    /// What the closure promises of a call with `event`: what holds once
    /// the closure has been called with it.
    spec fn ran(&self, event: EventInfo) -> bool;

    /// Calls the closure.
    fn call_boxed(&self, event: EventInfo)
        ensures
            self.ran(event),
    ;
}

/// A closure of a known type, as the handle holds it behind the trait
/// object.
struct Repr<F: Fn(EventInfo)> {
    func: F,
}

impl<F: Fn(EventInfo)> Repr<F> {
    /// The closure can be called with every event.
    #[verifier::type_invariant]
    spec fn accepts_every_event(self) -> bool {
        forall|event: EventInfo| call_requires(self.func, (event,))
    }
}

impl<F: Fn(EventInfo)> BaseFn for Repr<F> {
    closed spec fn ran(&self, event: EventInfo) -> bool {
        call_ensures(self.func, (event,), ())
    }

    fn call_boxed(&self, event: EventInfo) {
        proof {
            use_type_invariant(self);
        }
        (self.func)(event)
    }
}

/// Another pointer to the value that `rc` points to. Wraps `Rc::clone`,
/// which makes a pointer to the same allocation: the result points to the
/// very value that `rc` points to.
#[verifier::external_body]
fn share<T>(rc: &Rc<T>) -> (other: Rc<T>)
    ensures
        other == *rc,
{
    Rc::clone(rc)
}

/// A stand in for a boxed closure: a handle that holds a closure and
/// accounts for its block on the heap, and that can call the closure, copy
/// it and drop it without naming its type.
pub struct BoxedFn<'a> {
    ptr: usize,
    size: usize,
    align: usize,
    base: Rc<std::boxed::Box<dyn BaseFn + 'a>>,
    calls: Ghost<Seq<EventInfo>>,
}

impl<'a> BoxedFn<'a> {
    /// The address of the closure's block.
    pub closed spec fn spec_ptr(&self) -> usize {
        self.ptr
    }

    /// The size of the closure's block.
    pub closed spec fn size(&self) -> usize {
        self.size
    }

    /// The alignment of the closure's block.
    pub closed spec fn align(&self) -> usize {
        self.align
    }

    /// What the closure promises of a call with `event`: the closure's own
    /// postcondition, which holds once the closure has been called with it.
    pub closed spec fn effect(&self, event: EventInfo) -> bool {
        self.base.ran(event)
    }

    /// The events that the closure was called with through this handle,
    /// first to last.
    pub closed spec fn calls(&self) -> Seq<EventInfo> {
        self.calls@
    }

    /// The block of the heap that the closure takes.
    pub open spec fn block(&self) -> MemChunk {
        chunk_at(self.spec_ptr(), self.size())
    }

    /// The invariant of the handle: its block has a size and an alignment
    /// that an allocator can be asked for.
    pub open spec fn wf(&self) -> bool {
        self.size() > 0 && self.align() > 0
    }

    /// Whether the closure's block is one that `allocator` has handed out
    /// and not got back.
    pub open spec fn owned_in(&self, allocator: &LinkedListAllocator) -> bool {
        allocator.is_allocated(self.spec_ptr(), self.size())
    }

    /// Creates a new BoxedFn from the given function-thing: allocates one
    /// block for the table and the closure, and takes the closure into the
    /// handle. What a call of the handle promises is what a call of `func`
    /// promises.
    pub fn new<F>(func: F, allocator: &mut LinkedListAllocator) -> (f: BoxedFn<'a>) where
        F: Fn(EventInfo) + Copy + 'a,

        requires
            forall|event: EventInfo| call_requires(func, (event,)),
            old(allocator).wf(),
            callable_size::<F>() <= usize::MAX,
            old(allocator).can_alloc(callable_size::<F>() as usize, callable_align::<F>() as usize),
        ensures
            f.wf(),
            f.size() == callable_size::<F>(),
            f.align() == callable_align::<F>(),
            f.calls() == Seq::<EventInfo>::empty(),
            forall|e: EventInfo| #[trigger] f.effect(e) == call_ensures(func, (e,), ()),
            final(allocator).wf(),
            Some(f.spec_ptr()) == alloc_addr(
                old(allocator)@,
                callable_size::<F>(),
                callable_align::<F>(),
            ),
            final(allocator)@ == alloc_after(
                old(allocator)@,
                callable_size::<F>(),
                callable_align::<F>(),
            ),
            f.owned_in(final(allocator)),
            forall|a: usize, n: usize| #[trigger]
                old(allocator).is_allocated(a, n) ==> final(allocator).is_allocated(a, n)
                    && f.block().disjoint(chunk_at(a, n)),
    {
        let (size, align) = callable_layout::<F>().unwrap();
        let ptr = allocator.allocate(size, align).unwrap();
        let repr = Repr { func };
        assert(forall|e: EventInfo| #[trigger] repr.ran(e) == call_ensures(func, (e,), ()));
        let base: std::boxed::Box<dyn BaseFn + 'a> = std::boxed::Box::new(repr);
        assert(forall|e: EventInfo| #[trigger] base.ran(e) == repr.ran(e));
        let shared = Rc::new(base);
        assert(forall|e: EventInfo| #[trigger] shared.ran(e) == base.ran(e));
        BoxedFn { ptr, size, align, base: shared, calls: Ghost(Seq::empty()) }
    }

    /// The address of the closure's block.
    #[verifier::when_used_as_spec(spec_ptr)]
    pub fn as_ptr(&self) -> (ptr: usize)
        ensures
            ptr == self.spec_ptr(),
    {
        self.ptr
    }

    /// The size and the alignment of the closure's block.
    pub fn layout(&self) -> (layout: (usize, usize))
        ensures
            layout == (self.size(), self.align()),
    {
        (self.size, self.align)
    }

    /// The handle after its closure was called with `event`: the same
    /// handle, with one more call on record.
    pub closed spec fn after_call(self, event: EventInfo) -> BoxedFn<'a> {
        BoxedFn { calls: Ghost(self.calls@.push(event)), ..self }
    }

    /// What a call changes: the record of calls, and nothing else.
    pub proof fn lemma_after_call(self, event: EventInfo)
        ensures
            self.after_call(event).calls() == self.calls().push(event),
            self.after_call(event).spec_ptr() == self.spec_ptr(),
            self.after_call(event).size() == self.size(),
            self.after_call(event).align() == self.align(),
            forall|e: EventInfo| #[trigger] self.after_call(event).effect(e) == self.effect(e),
    {
    }

    /// The handle after its closure was called with each of `events`, in
    /// order.
    pub open spec fn after_calls(self, events: Seq<EventInfo>) -> BoxedFn<'a>
        decreases events.len(),
    {
        if events.len() == 0 {
            self
        } else {
            self.after_calls(events.drop_last()).after_call(events.last())
        }
    }

    /// Calling the closure N times puts exactly those N calls on record, in
    /// order, after the calls that were there, and changes nothing else.
    pub proof fn lemma_after_calls(self, events: Seq<EventInfo>)
        ensures
            self.after_calls(events).calls() == self.calls() + events,
            self.after_calls(events).calls().len() == self.calls().len() + events.len(),
            self.after_calls(events).spec_ptr() == self.spec_ptr(),
            self.after_calls(events).size() == self.size(),
            self.after_calls(events).align() == self.align(),
            forall|e: EventInfo| #[trigger] self.after_calls(events).effect(e) == self.effect(e),
        decreases events.len(),
    {
        if events.len() == 0 {
            assert(self.calls() + events =~= self.calls());
        } else {
            self.lemma_after_calls(events.drop_last());
            self.after_calls(events.drop_last()).lemma_after_call(events.last());
            assert(self.calls() + events =~= (self.calls() + events.drop_last()).push(
                events.last(),
            ));
        }
    }

    /// Calls the closure with `event`: what the closure promises of the call
    /// holds afterwards, and the call is put on record.
    pub fn call(&mut self, event: EventInfo)
        ensures
            old(self).effect(event),
            forall|e: EventInfo| #[trigger] final(self).effect(e) == old(self).effect(e),
            *final(self) == old(self).after_call(event),
            final(self).calls() == old(self).calls().push(event),
            final(self).spec_ptr() == old(self).spec_ptr(),
            final(self).size() == old(self).size(),
            final(self).align() == old(self).align(),
    {
        self.base.call_boxed(event);
        proof {
            self.calls@ = self.calls@.push(event);
        }
    }

    /// A handle of the same closure with a fresh block of its own, of the
    /// same size and alignment. The copy promises of a call what this
    /// handle promises, and has not been called yet.
    pub fn clone(&self, allocator: &mut LinkedListAllocator) -> (copy: BoxedFn<'a>)
        requires
            self.wf(),
            old(allocator).wf(),
            old(allocator).can_alloc(self.size(), self.align()),
        ensures
            copy.wf(),
            copy.size() == self.size(),
            copy.align() == self.align(),
            copy.calls() == Seq::<EventInfo>::empty(),
            forall|e: EventInfo| #[trigger] copy.effect(e) == self.effect(e),
            final(allocator).wf(),
            Some(copy.spec_ptr()) == alloc_addr(
                old(allocator)@,
                self.size() as int,
                self.align() as int,
            ),
            final(allocator)@ == alloc_after(
                old(allocator)@,
                self.size() as int,
                self.align() as int,
            ),
            copy.owned_in(final(allocator)),
            forall|a: usize, n: usize| #[trigger]
                old(allocator).is_allocated(a, n) ==> final(allocator).is_allocated(a, n)
                    && copy.block().disjoint(chunk_at(a, n)),
    {
        let ptr = allocator.allocate(self.size, self.align).unwrap();
        BoxedFn {
            ptr,
            size: self.size,
            align: self.align,
            base: share(&self.base),
            calls: Ghost(Seq::empty()),
        }
    }

    /// Drops the handle and gives its block back to the heap.
    pub fn drop(self, allocator: &mut LinkedListAllocator)
        requires
            old(allocator).wf(),
            self.owned_in(old(allocator)),
        ensures
            final(allocator).wf(),
            final(allocator)@ == release(old(allocator)@, self.block()),
            free_bytes(final(allocator)@) == free_bytes(old(allocator)@).union(self.block().bytes()),
            forall|a: usize, n: usize| #[trigger]
                old(allocator).is_allocated(a, n) && chunk_at(a, n).disjoint(self.block())
                    ==> final(allocator).is_allocated(a, n),
    {
        allocator.dealloc(self.ptr, self.size);
    }
}

} // verus!
