//! The mediator between the code that handles events and the interrupt
//! service routines that announce them.
use crate::allocator::{
    alloc_addr, alloc_after, chunk_at, free_bytes, release, LinkedListAllocator, MemChunk,
};
use crate::boxed_fn::BoxedFn;
use crate::keyboard::KeyEvent;
use crate::vec::{buffer_size, Vec};
use vstd::layout::{align_of, layout_for_type_is_valid};
use vstd::prelude::*;

verus! {

/// The info about an event that is passed into a handler when it is called.
#[derive(Debug, Clone, Copy, PartialEq, Eq, Structural)]
pub enum EventInfo {
    Timer,
    Keyboard(KeyEvent),
}

/// The kinds of event that handlers can be hooked to.
#[derive(Debug, Clone, Copy, PartialEq, Eq, Structural)]
pub enum EventKind {
    Timer,
    Keyboard,
}

impl EventInfo {
    /// The kind of event that the info is about.
    pub open spec fn spec_kind(&self) -> EventKind {
        match self {
            EventInfo::Timer => EventKind::Timer,
            EventInfo::Keyboard(_) => EventKind::Keyboard,
        }
    }

    /// The kind of event that the info is about.
    #[verifier::when_used_as_spec(spec_kind)]
    pub fn kind(&self) -> (kind: EventKind)
        ensures
            kind == self.spec_kind(),
    {
        match self {
            EventInfo::Timer => EventKind::Timer,
            EventInfo::Keyboard(_) => EventKind::Keyboard,
        }
    }
}

/// The number of handlers that a fresh list of handlers has room for.
pub const INITIAL_CAPACITY: usize = 10;

/// A function that is called when an event occurs, and the identifier it is
/// known by.
pub struct Handler<'a> {
    // The identifier for this handler
    id: usize,
    // A function called when an event occurs
    func: BoxedFn<'a>,
}

impl<'a> Handler<'a> {
    /// The identifier of the handler.
    pub closed spec fn id(self) -> usize {
        self.id
    }

    /// The function of the handler.
    pub closed spec fn func(self) -> BoxedFn<'a> {
        self.func
    }

    /// The handler after its function was called with `event`.
    pub closed spec fn after_call(self, event: EventInfo) -> Handler<'a> {
        Handler { id: self.id, func: self.func.after_call(event) }
    }

    /// What a call changes of a handler: its function's record of calls.
    pub proof fn lemma_after_call(self, event: EventInfo)
        ensures
            self.after_call(event).id() == self.id(),
            self.after_call(event).func() == self.func().after_call(event),
            self.after_call(event).func().calls() == self.func().calls().push(event),
            self.after_call(event).func().block() == self.func().block(),
            self.after_call(event).func().wf() == self.func().wf(),
            forall|e: EventInfo| #[trigger]
                self.after_call(event).func().effect(e) == self.func().effect(e),
    {
        self.func.lemma_after_call(event);
    }
}

/// The index of the first handler at or after `from` with identifier `id`,
/// or `handlers.len()` when there is none.
pub open spec fn position_from(handlers: Seq<Handler>, from: int, id: usize) -> int
    decreases handlers.len() - from,
{
    if from >= handlers.len() {
        handlers.len() as int
    } else if handlers[from].id() == id {
        from
    } else {
        position_from(handlers, from + 1, id)
    }
}

/// The index of the first handler with identifier `id`, or
/// `handlers.len()` when there is none.
pub open spec fn position(handlers: Seq<Handler>, id: usize) -> int {
    position_from(handlers, 0, id)
}

/// The invariant of a list of handlers: the functions are well formed, and
/// the identifiers grow along the list and stay below `next_id`.
pub open spec fn handlers_wf(handlers: Seq<Handler>, next_id: usize) -> bool {
    &&& forall|i: int| 0 <= i < handlers.len() ==> (#[trigger] handlers[i]).func().wf()
    &&& forall|i: int| 0 <= i < handlers.len() ==> (#[trigger] handlers[i]).id() < next_id
    &&& forall|i: int, j: int|
        #![trigger handlers[i], handlers[j]]
        0 <= i < j < handlers.len() ==> handlers[i].id() < handlers[j].id()
}

/// Whether the block of every handler is one that `allocator` has handed
/// out and not got back.
pub open spec fn handlers_owned(
    handlers: Seq<Handler>,
    allocator: &LinkedListAllocator,
) -> bool {
    forall|i: int| 0 <= i < handlers.len() ==> (#[trigger] handlers[i]).func().owned_in(allocator)
}

/// Whether the block of no handler shares a byte with `block`.
pub open spec fn handlers_apart_from(handlers: Seq<Handler>, block: MemChunk) -> bool {
    forall|i: int| 0 <= i < handlers.len() ==> (#[trigger] handlers[i]).func().block().disjoint(block)
}

/// Whether no two handlers of the list have blocks that share a byte.
pub open spec fn handlers_apart(handlers: Seq<Handler>) -> bool {
    forall|i: int, j: int|
        #![trigger handlers[i], handlers[j]]
        0 <= i < j < handlers.len() ==> handlers[i].func().block().disjoint(
            handlers[j].func().block(),
        )
}

/// Whether no handler of `a` has a block that shares a byte with the block
/// of a handler of `b`.
pub open spec fn handlers_apart_across(a: Seq<Handler>, b: Seq<Handler>) -> bool {
    forall|i: int, j: int|
        #![trigger a[i], b[j]]
        0 <= i < a.len() && 0 <= j < b.len() ==> a[i].func().block().disjoint(b[j].func().block())
}

/// Calls every handler of the list with `event`, first to last.
fn call_all<'a>(handlers: &mut Vec<Handler<'a>>, event: EventInfo)
    ensures
        forall|j: int|
            0 <= j < old(handlers)@.len() ==> (#[trigger] old(handlers)@[j]).func().effect(event),
        final(handlers)@ == old(handlers)@.map_values(|h: Handler<'a>| h.after_call(event)),
        final(handlers).spec_capacity() == old(handlers).spec_capacity(),
        final(handlers).spec_as_ptr() == old(handlers).spec_as_ptr(),
{
    let ghost before = handlers@;
    let n = handlers.len();
    let mut i: usize = 0;
    while i < n
        invariant
            i <= n,
            n == before.len(),
            handlers@.len() == n,
            handlers.spec_capacity() == old(handlers).spec_capacity(),
            handlers.spec_as_ptr() == old(handlers).spec_as_ptr(),
            forall|j: int| 0 <= j < i ==> (#[trigger] before[j]).func().effect(event),
            forall|j: int| 0 <= j < i ==> handlers@[j] == (#[trigger] before[j]).after_call(event),
            forall|j: int| i <= j < n ==> handlers@[j] == #[trigger] before[j],
        decreases n - i,
    {
        let handler = handlers.index_mut(i);
        handler.func.call(event);
        i += 1;
    }
    assert(handlers@ =~= before.map_values(|h: Handler<'a>| h.after_call(event)));
}

/// The index of the first handler with identifier `id`, or the number of
/// handlers when there is none.
fn find<'a>(handlers: &Vec<Handler<'a>>, id: usize) -> (i: usize)
    ensures
        i == position(handlers@, id),
        i <= handlers@.len(),
        i < handlers@.len() ==> handlers@[i as int].id() == id,
        forall|j: int| 0 <= j < i ==> (#[trigger] handlers@[j]).id() != id,
{
    let mut i: usize = 0;
    while i < handlers.len()
        invariant
            i <= handlers@.len(),
            position(handlers@, id) == position_from(handlers@, i as int, id),
            forall|j: int| 0 <= j < i ==> (#[trigger] handlers@[j]).id() != id,
        decreases handlers@.len() - i,
    {
        if handlers.index(i).id == id {
            return i;
        }
        i += 1;
    }
    i
}

/// Drops every handler of the list, last to first: the functions' blocks
/// go back to the heap, and the list is left empty.
fn drop_all<'a>(handlers: &mut Vec<Handler<'a>>, allocator: &mut LinkedListAllocator)
    requires
        old(allocator).wf(),
        handlers_owned(old(handlers)@, old(allocator)),
        handlers_apart(old(handlers)@),
    ensures
        final(allocator).wf(),
        final(handlers)@.len() == 0,
        final(handlers).spec_capacity() == old(handlers).spec_capacity(),
        final(handlers).spec_as_ptr() == old(handlers).spec_as_ptr(),
        forall|i: int|
            0 <= i < old(handlers)@.len() ==> (#[trigger] old(
                handlers,
            )@[i]).func().block().bytes().subset_of(free_bytes(final(allocator)@)),
        free_bytes(old(allocator)@).subset_of(free_bytes(final(allocator)@)),
        forall|a: usize, n: usize| #[trigger]
            old(allocator).is_allocated(a, n) && handlers_apart_from(old(handlers)@, chunk_at(a, n))
                ==> final(allocator).is_allocated(a, n),
{
    let ghost all = handlers@;
    while handlers.len() > 0
        invariant
            allocator.wf(),
            handlers@.len() <= all.len(),
            handlers@ == all.subrange(0, handlers@.len() as int),
            handlers.spec_capacity() == old(handlers).spec_capacity(),
            handlers.spec_as_ptr() == old(handlers).spec_as_ptr(),
            handlers_owned(handlers@, allocator),
            handlers_apart(all),
            forall|i: int|
                handlers@.len() <= i < all.len() ==> (#[trigger] all[i]).func().block().bytes().subset_of(
                    free_bytes(allocator@),
                ),
            free_bytes(old(allocator)@).subset_of(free_bytes(allocator@)),
            forall|a: usize, n: usize| #[trigger]
                old(allocator).is_allocated(a, n) && handlers_apart_from(all, chunk_at(a, n))
                    ==> allocator.is_allocated(a, n),
        decreases handlers@.len(),
    {
        let ghost before = *allocator;
        let ghost rest = handlers@.len() - 1;
        let handler = handlers.pop();
        proof {
            assert(handler == all[rest]);
            assert(handlers@ =~= all.subrange(0, rest));
            assert(all.subrange(0, rest + 1)[rest].func().owned_in(&before));
            assert forall|i: int| 0 <= i < rest implies before.is_allocated(
                (#[trigger] all[i]).func().spec_ptr(),
                all[i].func().size(),
            ) && all[i].func().block().disjoint(handler.func().block()) by {
                assert(all.subrange(0, rest + 1)[i].func().owned_in(&before));
            }
        }
        handler.func.drop(allocator);
        proof {
            assert forall|i: int| 0 <= i < rest implies (#[trigger] handlers@[i]).func().owned_in(
                allocator,
            ) by {
                assert(handlers@[i] == all[i]);
            }
        }
    }
}

/// Mediator between the code that handles events and the interrupt service
/// routines.
pub struct EventHooker<'a> {
    // Functions to be called when the timer event occurs
    timer_handlers: Vec<Handler<'a>>,
    // Functions to be called when the keyboard event occurs
    keyboard_handlers: Vec<Handler<'a>>,
    // The identifier to be used for the next function added
    next_id: usize,
    // Which handler was called with which event, first to last
    fired: Ghost<Seq<(usize, EventInfo)>>,
}

/// The number of bytes that a fresh list of handlers takes.
pub open spec fn initial_buffer_size() -> int {
    buffer_size::<Handler>(INITIAL_CAPACITY as int)
}

/// The calls that a dispatch of `event` to `handlers` makes: one to each
/// handler, in the order of the list.
pub open spec fn dispatch(handlers: Seq<Handler>, event: EventInfo) -> Seq<(usize, EventInfo)> {
    handlers.map_values(|h: Handler| (h.id(), event))
}

impl<'a> EventHooker<'a> {
    /// The handlers that are hooked to events of `kind`, in the order in
    /// which they were hooked.
    pub closed spec fn handlers(&self, kind: EventKind) -> Seq<Handler<'a>> {
        match kind {
            EventKind::Timer => self.timer_handlers@,
            EventKind::Keyboard => self.keyboard_handlers@,
        }
    }

    /// The number of handlers that the list for `kind` has room for.
    pub closed spec fn capacity(&self, kind: EventKind) -> usize {
        match kind {
            EventKind::Timer => self.timer_handlers.spec_capacity(),
            EventKind::Keyboard => self.keyboard_handlers.spec_capacity(),
        }
    }

    /// The block of the heap that the list for `kind` takes.
    pub closed spec fn buffer(&self, kind: EventKind) -> MemChunk {
        match kind {
            EventKind::Timer => self.timer_handlers.buffer(),
            EventKind::Keyboard => self.keyboard_handlers.buffer(),
        }
    }

    /// The identifier that the next handler gets.
    pub closed spec fn spec_next_id(&self) -> usize {
        self.next_id
    }

    /// Which handler was called with which event since the registry was
    /// made, first to last.
    pub closed spec fn fired(&self) -> Seq<(usize, EventInfo)> {
        self.fired@
    }

    /// The invariant of the registry: both lists are well formed, and in
    /// each the identifiers grow along the list and stay below the next one.
    pub closed spec fn wf(&self) -> bool {
        &&& self.timer_handlers.wf()
        &&& self.keyboard_handlers.wf()
        &&& handlers_wf(self.timer_handlers@, self.next_id)
        &&& handlers_wf(self.keyboard_handlers@, self.next_id)
    }

    /// Whether the block `block` shares no byte with what the registry
    /// holds on the heap.
    pub closed spec fn apart_from(&self, block: MemChunk) -> bool {
        &&& self.timer_handlers.buffer().disjoint(block)
        &&& self.keyboard_handlers.buffer().disjoint(block)
        &&& handlers_apart_from(self.timer_handlers@, block)
        &&& handlers_apart_from(self.keyboard_handlers@, block)
    }

    /// Whether every block that the registry holds on the heap (the two
    /// lists and the handlers' functions) is one that `allocator` has handed
    /// out and not got back, and no two of them share a byte.
    pub closed spec fn owned_in(&self, allocator: &LinkedListAllocator) -> bool {
        &&& self.timer_handlers.owns_buffer_in(allocator)
        &&& self.keyboard_handlers.owns_buffer_in(allocator)
        &&& self.timer_handlers.buffer().disjoint(self.keyboard_handlers.buffer())
        &&& handlers_owned(self.timer_handlers@, allocator)
        &&& handlers_owned(self.keyboard_handlers@, allocator)
        &&& handlers_apart_from(self.timer_handlers@, self.timer_handlers.buffer())
        &&& handlers_apart_from(self.timer_handlers@, self.keyboard_handlers.buffer())
        &&& handlers_apart_from(self.keyboard_handlers@, self.timer_handlers.buffer())
        &&& handlers_apart_from(self.keyboard_handlers@, self.keyboard_handlers.buffer())
        &&& handlers_apart(self.timer_handlers@)
        &&& handlers_apart(self.keyboard_handlers@)
        &&& handlers_apart_across(self.timer_handlers@, self.keyboard_handlers@)
    }

    /// What the invariant says of the handlers: in each list the
    /// identifiers grow, so no two handlers of a list share one, and all are
    /// below the next identifier.
    pub proof fn lemma_ids(&self, kind: EventKind)
        requires
            self.wf(),
        ensures
            handlers_wf(self.handlers(kind), self.spec_next_id()),
            self.handlers(kind).len() <= self.capacity(kind),
    {
    }

    /// A block that shares no byte with any block that `allocator` has
    /// handed out is apart from everything the registry holds.
    pub proof fn lemma_apart_from(&self, allocator: &LinkedListAllocator, block: MemChunk)
        requires
            self.owned_in(allocator),
            forall|a: usize, n: usize| #[trigger]
                allocator.is_allocated(a, n) ==> block.disjoint(chunk_at(a, n)),
        ensures
            self.apart_from(block),
    {
        let t = self.timer_handlers@;
        let k = self.keyboard_handlers@;
        assert(allocator.is_allocated(
            self.timer_handlers.buffer().start_addr,
            self.timer_handlers.buffer().size,
        ));
        assert(allocator.is_allocated(
            self.keyboard_handlers.buffer().start_addr,
            self.keyboard_handlers.buffer().size,
        ));
        assert forall|i: int| 0 <= i < t.len() implies (#[trigger] t[i]).func().block().disjoint(
            block,
        ) by {
            assert(t[i].func().owned_in(allocator));
            assert(allocator.is_allocated(t[i].func().spec_ptr(), t[i].func().size()));
        }
        assert forall|i: int| 0 <= i < k.len() implies (#[trigger] k[i]).func().block().disjoint(
            block,
        ) by {
            assert(k[i].func().owned_in(allocator));
            assert(allocator.is_allocated(k[i].func().spec_ptr(), k[i].func().size()));
        }
    }

    /// The registry still owns its blocks in an allocator that has handed
    /// out every block that `before` had.
    pub proof fn lemma_owned_after(
        &self,
        before: &LinkedListAllocator,
        after: &LinkedListAllocator,
    )
        requires
            self.owned_in(before),
            forall|a: usize, n: usize| #[trigger]
                before.is_allocated(a, n) ==> after.is_allocated(a, n),
        ensures
            self.owned_in(after),
    {
        let t = self.timer_handlers@;
        let k = self.keyboard_handlers@;
        assert(before.is_allocated(
            self.timer_handlers.buffer().start_addr,
            self.timer_handlers.buffer().size,
        ));
        assert(before.is_allocated(
            self.keyboard_handlers.buffer().start_addr,
            self.keyboard_handlers.buffer().size,
        ));
        assert forall|i: int| 0 <= i < t.len() implies (#[trigger] t[i]).func().owned_in(after) by {
            assert(t[i].func().owned_in(before));
            assert(before.is_allocated(t[i].func().spec_ptr(), t[i].func().size()));
        }
        assert forall|i: int| 0 <= i < k.len() implies (#[trigger] k[i]).func().owned_in(after) by {
            assert(k[i].func().owned_in(before));
            assert(before.is_allocated(k[i].func().spec_ptr(), k[i].func().size()));
        }
    }

    /// The number of handlers that are hooked to events of `kind`.
    pub fn len(&self, kind: EventKind) -> (len: usize)
        ensures
            len == self.handlers(kind).len(),
    {
        match kind {
            EventKind::Timer => self.timer_handlers.len(),
            EventKind::Keyboard => self.keyboard_handlers.len(),
        }
    }

    /// The number of handlers that the list for `kind` has room for.
    pub fn room(&self, kind: EventKind) -> (capacity: usize)
        ensures
            capacity == self.capacity(kind),
    {
        match kind {
            EventKind::Timer => self.timer_handlers.capacity(),
            EventKind::Keyboard => self.keyboard_handlers.capacity(),
        }
    }

    /// The identifier that the next handler gets.
    #[verifier::when_used_as_spec(spec_next_id)]
    pub fn next_id(&self) -> (id: usize)
        ensures
            id == self.spec_next_id(),
    {
        self.next_id
    }

    /// Creates a new EventHooker instance, with room for ten handlers of
    /// each kind.
    pub fn new(allocator: &mut LinkedListAllocator) -> (hooker: EventHooker<'a>)
        requires
            old(allocator).wf(),
            0 < initial_buffer_size() <= usize::MAX,
            alloc_addr(old(allocator)@, initial_buffer_size(), align_of::<Handler>() as int)
                is Some,
            alloc_addr(
                alloc_after(old(allocator)@, initial_buffer_size(), align_of::<Handler>() as int),
                initial_buffer_size(),
                align_of::<Handler>() as int,
            ) is Some,
        ensures
            hooker.wf(),
            hooker.owned_in(final(allocator)),
            final(allocator).wf(),
            forall|kind: EventKind| #[trigger] hooker.handlers(kind) == Seq::<Handler>::empty(),
            forall|kind: EventKind| #[trigger] hooker.capacity(kind) == INITIAL_CAPACITY,
            hooker.spec_next_id() == 0,
            hooker.fired() == Seq::<(usize, EventInfo)>::empty(),
            final(allocator)@ == alloc_after(
                alloc_after(old(allocator)@, initial_buffer_size(), align_of::<Handler>() as int),
                initial_buffer_size(),
                align_of::<Handler>() as int,
            ),
            forall|a: usize, n: usize| #[trigger]
                old(allocator).is_allocated(a, n) ==> final(allocator).is_allocated(a, n)
                    && hooker.apart_from(chunk_at(a, n)),
    {
        EventHooker::try_new(allocator).unwrap()
    }

    /// Creates a new EventHooker instance where the heap has room for it, and
    /// leaves the heap as it is where it has not.
    pub fn try_new(allocator: &mut LinkedListAllocator) -> (hooker: Option<EventHooker<'a>>)
        requires
            old(allocator).wf(),
        ensures
            final(allocator).wf(),
            hooker is Some <==> {
                &&& 0 < initial_buffer_size() <= usize::MAX
                &&& alloc_addr(
                    old(allocator)@,
                    initial_buffer_size(),
                    align_of::<Handler>() as int,
                ) is Some
                &&& alloc_addr(
                    alloc_after(
                        old(allocator)@,
                        initial_buffer_size(),
                        align_of::<Handler>() as int,
                    ),
                    initial_buffer_size(),
                    align_of::<Handler>() as int,
                ) is Some
            },
            hooker is None ==> final(allocator)@ == old(allocator)@,
            hooker matches Some(hooker) ==> {
                &&& hooker.wf()
                &&& hooker.owned_in(final(allocator))
                &&& forall|kind: EventKind| #[trigger]
                    hooker.handlers(kind) == Seq::<Handler>::empty()
                &&& forall|kind: EventKind| #[trigger] hooker.capacity(kind) == INITIAL_CAPACITY
                &&& hooker.spec_next_id() == 0
                &&& hooker.fired() == Seq::<(usize, EventInfo)>::empty()
                &&& final(allocator)@ == alloc_after(
                    alloc_after(
                        old(allocator)@,
                        initial_buffer_size(),
                        align_of::<Handler>() as int,
                    ),
                    initial_buffer_size(),
                    align_of::<Handler>() as int,
                )
                &&& forall|a: usize, n: usize| #[trigger]
                    old(allocator).is_allocated(a, n) ==> final(allocator).is_allocated(a, n)
                        && hooker.apart_from(chunk_at(a, n))
            },
    {
        layout_for_type_is_valid::<Handler>();
        let size = match INITIAL_CAPACITY.checked_mul(core::mem::size_of::<Handler>()) {
            Some(size) => size,
            None => {
                assert(initial_buffer_size() > usize::MAX);
                return None;
            },
        };
        let align = core::mem::align_of::<Handler>();
        if size == 0 || !allocator.has_room_for(size, align) {
            return None;
        }
        let timer_handlers = Vec::with_capacity(INITIAL_CAPACITY, allocator);
        let ghost middle = *allocator;
        if !allocator.has_room_for(size, align) {
            // There is room for one list only: the heap gets it back
            proof {
                crate::heap_laws::lemma_alloc_dealloc_restores(old(allocator)@, size, align);
            }
            timer_handlers.drop(allocator);
            return None;
        }
        let keyboard_handlers = Vec::with_capacity(INITIAL_CAPACITY, allocator);
        proof {
            assert(middle.is_allocated(
                timer_handlers.buffer().start_addr,
                timer_handlers.buffer().size,
            ));
            assert forall|a: usize, n: usize| #[trigger]
                old(allocator).is_allocated(a, n) implies allocator.is_allocated(a, n)
                && timer_handlers.buffer().disjoint(chunk_at(a, n))
                && keyboard_handlers.buffer().disjoint(chunk_at(a, n)) by {
                assert(middle.is_allocated(a, n));
            }
        }
        Some(
            EventHooker { timer_handlers, keyboard_handlers, next_id: 0, fired: Ghost(Seq::empty()) },
        )
    }

    /// Used by client code to tell the EventHooker to call function `func`
    /// whenever an event of the kind `event_kind` takes place. The returned
    /// ID identifies the handler when it is removed. The registry takes
    /// over the function's block.
    pub fn hook_event(
        &mut self,
        event_kind: EventKind,
        func: BoxedFn<'a>,
        allocator: &mut LinkedListAllocator,
    ) -> (id: usize)
        requires
            old(self).wf(),
            old(allocator).wf(),
            old(self).owned_in(old(allocator)),
            func.wf(),
            func.owned_in(old(allocator)),
            old(self).apart_from(func.block()),
            old(self).spec_next_id() < usize::MAX,
            old(self).handlers(event_kind).len() == old(self).capacity(event_kind) ==> {
                &&& buffer_size::<Handler>(2 * old(self).capacity(event_kind)) <= usize::MAX
                &&& alloc_addr(
                    old(allocator)@,
                    buffer_size::<Handler>(2 * old(self).capacity(event_kind)),
                    align_of::<Handler>() as int,
                ) is Some
            },
        ensures
            final(self).wf(),
            final(allocator).wf(),
            final(self).owned_in(final(allocator)),
            id == old(self).spec_next_id(),
            final(self).spec_next_id() == id + 1,
            final(self).handlers(event_kind).len() == old(self).handlers(event_kind).len() + 1,
            final(self).handlers(event_kind).drop_last() == old(self).handlers(event_kind),
            final(self).handlers(event_kind).last().id() == id,
            final(self).handlers(event_kind).last().func() == func,
            forall|kind: EventKind|
                kind != event_kind ==> #[trigger] final(self).handlers(kind) == old(self).handlers(
                    kind,
                ) && final(self).capacity(kind) == old(self).capacity(kind) && final(self).buffer(
                    kind,
                ) == old(self).buffer(kind),
            final(self).fired() == old(self).fired(),
            old(self).handlers(event_kind).len() < old(self).capacity(event_kind) ==> {
                &&& final(self).capacity(event_kind) == old(self).capacity(event_kind)
                &&& final(self).buffer(event_kind) == old(self).buffer(event_kind)
                &&& final(allocator)@ == old(allocator)@
            },
            old(self).handlers(event_kind).len() == old(self).capacity(event_kind) ==> {
                &&& final(self).capacity(event_kind) == 2 * old(self).capacity(event_kind)
                &&& Some(final(self).buffer(event_kind).start_addr) == alloc_addr(
                    old(allocator)@,
                    buffer_size::<Handler>(2 * old(self).capacity(event_kind)),
                    align_of::<Handler>() as int,
                )
                &&& final(allocator)@ == release(
                    alloc_after(
                        old(allocator)@,
                        buffer_size::<Handler>(2 * old(self).capacity(event_kind)),
                        align_of::<Handler>() as int,
                    ),
                    old(self).buffer(event_kind),
                )
            },
            forall|a: usize, n: usize| #[trigger]
                old(allocator).is_allocated(a, n) && old(self).apart_from(chunk_at(a, n))
                    && func.block().disjoint(chunk_at(a, n)) ==> final(allocator).is_allocated(a, n)
                    && final(self).apart_from(chunk_at(a, n)),
    {
        layout_for_type_is_valid::<Handler>();
        let id = self.next_id;
        let ghost before = *self;
        let new_handler = Handler { func, id };
        proof {
            let t = self.timer_handlers@;
            let k = self.keyboard_handlers@;
            assert(old(allocator).is_allocated(func.spec_ptr(), func.size()));
            assert(old(allocator).is_allocated(
                self.timer_handlers.buffer().start_addr,
                self.timer_handlers.buffer().size,
            ));
            assert(old(allocator).is_allocated(
                self.keyboard_handlers.buffer().start_addr,
                self.keyboard_handlers.buffer().size,
            ));
            assert forall|i: int| 0 <= i < t.len() implies old(allocator).is_allocated(
                (#[trigger] t[i]).func().spec_ptr(),
                t[i].func().size(),
            ) by {
                assert(t[i].func().owned_in(old(allocator)));
            }
            assert forall|i: int| 0 <= i < k.len() implies old(allocator).is_allocated(
                (#[trigger] k[i]).func().spec_ptr(),
                k[i].func().size(),
            ) by {
                assert(k[i].func().owned_in(old(allocator)));
            }
        }
        match event_kind {
            EventKind::Timer => {
                self.timer_handlers.push(new_handler, allocator);
            },
            EventKind::Keyboard => {
                self.keyboard_handlers.push(new_handler, allocator);
            },
        }
        self.next_id += 1;
        proof {
            let t0 = before.timer_handlers@;
            let k0 = before.keyboard_handlers@;
            let t = self.timer_handlers@;
            let k = self.keyboard_handlers@;
            assert(self.handlers(event_kind).drop_last() =~= before.handlers(event_kind));
            assert forall|i: int| 0 <= i < t.len() implies (#[trigger] t[i]).func().owned_in(
                allocator,
            ) && t[i].func().wf() && t[i].func().block().disjoint(self.timer_handlers.buffer())
                && t[i].func().block().disjoint(self.keyboard_handlers.buffer()) by {
                if i < t0.len() {
                    assert(t[i] == t0[i]);
                }
            }
            assert forall|i: int| 0 <= i < k.len() implies (#[trigger] k[i]).func().owned_in(
                allocator,
            ) && k[i].func().wf() && k[i].func().block().disjoint(self.timer_handlers.buffer())
                && k[i].func().block().disjoint(self.keyboard_handlers.buffer()) by {
                if i < k0.len() {
                    assert(k[i] == k0[i]);
                }
            }
            assert forall|i: int, j: int| 0 <= i < j < t.len() implies (#[trigger] t[i]).id() < (
            #[trigger] t[j]).id() && t[i].func().block().disjoint(t[j].func().block()) by {
                assert(t[i] == t0[i]);
                if j < t0.len() {
                    assert(t[j] == t0[j]);
                }
            }
            assert forall|i: int, j: int| 0 <= i < j < k.len() implies (#[trigger] k[i]).id() < (
            #[trigger] k[j]).id() && k[i].func().block().disjoint(k[j].func().block()) by {
                assert(k[i] == k0[i]);
                if j < k0.len() {
                    assert(k[j] == k0[j]);
                }
            }
            assert forall|i: int, j: int| 0 <= i < t.len() && 0 <= j < k.len() implies (
            #[trigger] t[i]).func().block().disjoint((#[trigger] k[j]).func().block()) by {
                if i < t0.len() {
                    assert(t[i] == t0[i]);
                }
                if j < k0.len() {
                    assert(k[j] == k0[j]);
                }
            }
            assert forall|i: int| 0 <= i < t.len() implies (#[trigger] t[i]).id() < self.next_id by {
                if i < t0.len() {
                    assert(t[i] == t0[i]);
                }
            }
            assert forall|i: int| 0 <= i < k.len() implies (#[trigger] k[i]).id() < self.next_id by {
                if i < k0.len() {
                    assert(k[i] == k0[i]);
                }
            }
            assert forall|a: usize, n: usize| #[trigger]
                old(allocator).is_allocated(a, n) && before.apart_from(chunk_at(a, n))
                    && func.block().disjoint(chunk_at(a, n)) implies allocator.is_allocated(a, n)
                && self.apart_from(chunk_at(a, n)) by {
                assert forall|i: int| 0 <= i < t.len() implies (
                #[trigger] t[i]).func().block().disjoint(chunk_at(a, n)) by {
                    if i < t0.len() {
                        assert(t[i] == t0[i]);
                    }
                }
                assert forall|i: int| 0 <= i < k.len() implies (
                #[trigger] k[i]).func().block().disjoint(chunk_at(a, n)) by {
                    if i < k0.len() {
                        assert(k[i] == k0[i]);
                    }
                }
            }
        }
        id
    }

    /// Used by Interrupt Service Routines to tell the EventHooker that an
    /// event has occured. Every handler that is hooked to the event's kind
    /// is called with `event_info`, in the order in which the handlers were
    /// hooked. Handlers of the other kind are not called.
    pub fn send_event(&mut self, event_info: EventInfo)
        ensures
            forall|j: int|
                0 <= j < old(self).handlers(event_info.spec_kind()).len() ==> (
                #[trigger] old(self).handlers(event_info.spec_kind())[j]).func().effect(event_info),
            final(self).handlers(event_info.spec_kind()) == old(self).handlers(
                event_info.spec_kind(),
            ).map_values(|h: Handler<'a>| h.after_call(event_info)),
            forall|kind: EventKind|
                kind != event_info.spec_kind() ==> #[trigger] final(self).handlers(kind) == old(
                    self,
                ).handlers(kind),
            forall|kind: EventKind| #[trigger] final(self).capacity(kind) == old(self).capacity(kind),
            forall|kind: EventKind| #[trigger] final(self).buffer(kind) == old(self).buffer(kind),
            final(self).spec_next_id() == old(self).spec_next_id(),
            final(self).fired() == old(self).fired() + dispatch(
                old(self).handlers(event_info.spec_kind()),
                event_info,
            ),
            old(self).wf() ==> final(self).wf(),
            forall|allocator: &LinkedListAllocator| #[trigger]
                old(self).owned_in(allocator) ==> final(self).owned_in(allocator),
            forall|block: MemChunk| #[trigger]
                old(self).apart_from(block) ==> final(self).apart_from(block),
    {
        let ghost before = *self;
        match event_info {
            EventInfo::Timer => call_all(&mut self.timer_handlers, event_info),
            EventInfo::Keyboard(_) => call_all(&mut self.keyboard_handlers, event_info),
        }
        proof {
            self.fired@ = self.fired@ + dispatch(
                before.handlers(event_info.spec_kind()),
                event_info,
            );
            let t0 = before.timer_handlers@;
            let k0 = before.keyboard_handlers@;
            let t = self.timer_handlers@;
            let k = self.keyboard_handlers@;
            assert forall|i: int| 0 <= i < t.len() implies (#[trigger] t[i]).id() == t0[i].id()
                && t[i].func().block() == t0[i].func().block() && t[i].func().wf()
                == t0[i].func().wf() by {
                t0[i].lemma_after_call(event_info);
            }
            assert forall|i: int| 0 <= i < k.len() implies (#[trigger] k[i]).id() == k0[i].id()
                && k[i].func().block() == k0[i].func().block() && k[i].func().wf()
                == k0[i].func().wf() by {
                k0[i].lemma_after_call(event_info);
            }
            lemma_same_handlers(t0, t);
            lemma_same_handlers(k0, k);
        }
    }

    /// Used by client code to tell the EventHooker to stop calling the
    /// handler with ID `id` when an event of kind `event_kind` occurs. The
    /// handler is removed and its function dropped. `Ok(())` means that the
    /// handler was found and removed, `Err(())` that no handler of that kind
    /// has this ID.
    pub fn unhook_event(
        &mut self,
        event_kind: EventKind,
        id: usize,
        allocator: &mut LinkedListAllocator,
    ) -> (r: Result<(), ()>)
        requires
            old(self).wf(),
            old(allocator).wf(),
            old(self).owned_in(old(allocator)),
        ensures
            final(self).wf(),
            final(allocator).wf(),
            final(self).owned_in(final(allocator)),
            r is Ok <==> position(old(self).handlers(event_kind), id) < old(self).handlers(
                event_kind,
            ).len(),
            r is Ok ==> {
                &&& final(self).handlers(event_kind) == old(self).handlers(event_kind).remove(
                    position(old(self).handlers(event_kind), id),
                )
                &&& final(allocator)@ == release(
                    old(allocator)@,
                    old(self).handlers(event_kind)[position(
                        old(self).handlers(event_kind),
                        id,
                    )].func().block(),
                )
            },
            r is Err ==> {
                &&& final(self).handlers(event_kind) == old(self).handlers(event_kind)
                &&& final(allocator)@ == old(allocator)@
            },
            forall|kind: EventKind|
                kind != event_kind ==> #[trigger] final(self).handlers(kind) == old(self).handlers(
                    kind,
                ),
            forall|kind: EventKind| #[trigger] final(self).capacity(kind) == old(self).capacity(kind),
            forall|kind: EventKind| #[trigger] final(self).buffer(kind) == old(self).buffer(kind),
            final(self).spec_next_id() == old(self).spec_next_id(),
            final(self).fired() == old(self).fired(),
            forall|a: usize, n: usize| #[trigger]
                old(allocator).is_allocated(a, n) && old(self).apart_from(chunk_at(a, n))
                    ==> final(allocator).is_allocated(a, n) && final(self).apart_from(
                    chunk_at(a, n),
                ),
    {
        let ghost before = *self;
        proof {
            let t = self.timer_handlers@;
            let k = self.keyboard_handlers@;
            assert(old(allocator).is_allocated(
                self.timer_handlers.buffer().start_addr,
                self.timer_handlers.buffer().size,
            ));
            assert(old(allocator).is_allocated(
                self.keyboard_handlers.buffer().start_addr,
                self.keyboard_handlers.buffer().size,
            ));
            assert forall|i: int| 0 <= i < t.len() implies old(allocator).is_allocated(
                (#[trigger] t[i]).func().spec_ptr(),
                t[i].func().size(),
            ) by {
                assert(t[i].func().owned_in(old(allocator)));
            }
            assert forall|i: int| 0 <= i < k.len() implies old(allocator).is_allocated(
                (#[trigger] k[i]).func().spec_ptr(),
                k[i].func().size(),
            ) by {
                assert(k[i].func().owned_in(old(allocator)));
            }
        }
        let found = match event_kind {
            EventKind::Timer => {
                let i = find(&self.timer_handlers, id);
                if i < self.timer_handlers.len() {
                    Some(self.timer_handlers.remove(i))
                } else {
                    None
                }
            },
            EventKind::Keyboard => {
                let i = find(&self.keyboard_handlers, id);
                if i < self.keyboard_handlers.len() {
                    Some(self.keyboard_handlers.remove(i))
                } else {
                    None
                }
            },
        };
        match found {
            Some(handler) => {
                proof {
                    let p = position(before.handlers(event_kind), id);
                    let t0 = before.timer_handlers@;
                    let k0 = before.keyboard_handlers@;
                    assert(handler == before.handlers(event_kind)[p]);
                    assert(handler.func().owned_in(old(allocator)));
                    assert forall|i: int| 0 <= i < t0.len() && !(event_kind == EventKind::Timer
                        && i == p) implies (#[trigger] t0[i]).func().block().disjoint(
                        handler.func().block(),
                    ) by {
                        if event_kind == EventKind::Timer {
                            if i < p {
                                assert(t0[i].func().block().disjoint(t0[p].func().block()));
                            } else {
                                assert(t0[p].func().block().disjoint(t0[i].func().block()));
                            }
                        } else {
                            assert(t0[i].func().block().disjoint(k0[p].func().block()));
                        }
                    }
                    assert forall|i: int| 0 <= i < k0.len() && !(event_kind == EventKind::Keyboard
                        && i == p) implies (#[trigger] k0[i]).func().block().disjoint(
                        handler.func().block(),
                    ) by {
                        if event_kind == EventKind::Keyboard {
                            if i < p {
                                assert(k0[i].func().block().disjoint(k0[p].func().block()));
                            } else {
                                assert(k0[p].func().block().disjoint(k0[i].func().block()));
                            }
                        } else {
                            assert(t0[p].func().block().disjoint(k0[i].func().block()));
                        }
                    }
                }
                handler.func.drop(allocator);
                proof {
                    let p = position(before.handlers(event_kind), id);
                    let t0 = before.timer_handlers@;
                    let k0 = before.keyboard_handlers@;
                    let t = self.timer_handlers@;
                    let k = self.keyboard_handlers@;
                    lemma_sub_handlers(t0, t, if event_kind == EventKind::Timer { p } else { t0.len() as int });
                    lemma_sub_handlers(k0, k, if event_kind == EventKind::Keyboard { p } else { k0.len() as int });
                    assert forall|i: int| 0 <= i < t.len() implies (
                    #[trigger] t[i]).func().owned_in(allocator) by {
                        let i0 = if event_kind == EventKind::Timer && i >= p { i + 1 } else { i };
                        assert(t[i] == t0[i0]);
                    }
                    assert forall|i: int| 0 <= i < k.len() implies (
                    #[trigger] k[i]).func().owned_in(allocator) by {
                        let i0 = if event_kind == EventKind::Keyboard && i >= p { i + 1 } else { i };
                        assert(k[i] == k0[i0]);
                    }
                    assert forall|i: int, j: int| 0 <= i < t.len() && 0 <= j < k.len() implies (
                    #[trigger] t[i]).func().block().disjoint((#[trigger] k[j]).func().block()) by {
                        let i0 = if event_kind == EventKind::Timer && i >= p { i + 1 } else { i };
                        let j0 = if event_kind == EventKind::Keyboard && j >= p { j + 1 } else { j };
                        assert(t[i] == t0[i0]);
                        assert(k[j] == k0[j0]);
                    }
                }
                Ok(())
            },
            None => Err(()),
        }
    }

    /// Drops the registry: every handler is dropped, and the two lists give
    /// their buffers back. All that the registry held on the heap is free
    /// again, and no other block is touched.
    pub fn drop(self, allocator: &mut LinkedListAllocator)
        requires
            self.wf(),
            old(allocator).wf(),
            self.owned_in(old(allocator)),
        ensures
            final(allocator).wf(),
            forall|kind: EventKind| #[trigger]
                self.buffer(kind).bytes().subset_of(free_bytes(final(allocator)@)),
            forall|kind: EventKind, i: int|
                0 <= i < self.handlers(kind).len() ==> (#[trigger] self.handlers(
                    kind,
                )[i]).func().block().bytes().subset_of(free_bytes(final(allocator)@)),
            free_bytes(old(allocator)@).subset_of(free_bytes(final(allocator)@)),
            forall|a: usize, n: usize| #[trigger]
                old(allocator).is_allocated(a, n) && self.apart_from(chunk_at(a, n))
                    ==> final(allocator).is_allocated(a, n),
    {
        let EventHooker { mut timer_handlers, mut keyboard_handlers, next_id: _, fired: _ } = self;
        let ghost t = timer_handlers@;
        let ghost k = keyboard_handlers@;
        let ghost timer_buffer = timer_handlers.buffer();
        let ghost keyboard_buffer = keyboard_handlers.buffer();
        proof {
            assert(old(allocator).is_allocated(timer_buffer.start_addr, timer_buffer.size));
            assert(old(allocator).is_allocated(keyboard_buffer.start_addr, keyboard_buffer.size));
            assert forall|i: int| 0 <= i < k.len() implies old(allocator).is_allocated(
                (#[trigger] k[i]).func().spec_ptr(),
                k[i].func().size(),
            ) && handlers_apart_from(t, chunk_at(k[i].func().spec_ptr(), k[i].func().size())) by {
                assert(k[i].func().owned_in(old(allocator)));
                assert forall|j: int| 0 <= j < t.len() implies (
                #[trigger] t[j]).func().block().disjoint(k[i].func().block()) by {}
            }
        }
        drop_all(&mut timer_handlers, allocator);
        let ghost second = *allocator;
        proof {
            assert forall|i: int| 0 <= i < k.len() implies (#[trigger] k[i]).func().owned_in(
                &second,
            ) by {
                assert(old(allocator).is_allocated(k[i].func().spec_ptr(), k[i].func().size()));
            }
            assert(second.is_allocated(timer_buffer.start_addr, timer_buffer.size));
            assert(second.is_allocated(keyboard_buffer.start_addr, keyboard_buffer.size));
        }
        drop_all(&mut keyboard_handlers, allocator);
        let ghost third = *allocator;
        proof {
            assert(third.is_allocated(timer_buffer.start_addr, timer_buffer.size));
            assert(third.is_allocated(keyboard_buffer.start_addr, keyboard_buffer.size));
        }
        timer_handlers.drop(allocator);
        let ghost fourth = *allocator;
        proof {
            assert(fourth.is_allocated(keyboard_buffer.start_addr, keyboard_buffer.size));
        }
        keyboard_handlers.drop(allocator);
        proof {
            assert forall|kind: EventKind| #[trigger]
                self.buffer(kind).bytes().subset_of(free_bytes(allocator@)) by {}
            assert forall|kind: EventKind, i: int| 0 <= i < self.handlers(kind).len() implies (
            #[trigger] self.handlers(kind)[i]).func().block().bytes().subset_of(
                free_bytes(allocator@),
            ) by {
                if kind == EventKind::Timer {
                    assert(t[i].func().block().bytes().subset_of(free_bytes(second@)));
                } else {
                    assert(k[i].func().block().bytes().subset_of(free_bytes(third@)));
                }
            }
            assert forall|a: usize, n: usize| #[trigger]
                old(allocator).is_allocated(a, n) && self.apart_from(
                    chunk_at(a, n),
                ) implies allocator.is_allocated(a, n) by {
                assert(second.is_allocated(a, n));
                assert(third.is_allocated(a, n));
                assert(fourth.is_allocated(a, n));
            }
        }
    }
}

/// A list of handlers with the identifiers and blocks of `a`, one for one,
/// has what `a` has of the properties that speak of identifiers and blocks.
proof fn lemma_same_handlers(a: Seq<Handler>, b: Seq<Handler>)
    requires
        a.len() == b.len(),
        forall|i: int|
            0 <= i < b.len() ==> (#[trigger] b[i]).id() == a[i].id() && b[i].func().block()
                == a[i].func().block() && b[i].func().wf() == a[i].func().wf(),
    ensures
        forall|next_id: usize| #[trigger] handlers_wf(a, next_id) ==> handlers_wf(b, next_id),
        forall|allocator: &LinkedListAllocator| #[trigger]
            handlers_owned(a, allocator) ==> handlers_owned(b, allocator),
        forall|block: MemChunk| #[trigger]
            handlers_apart_from(a, block) ==> handlers_apart_from(b, block),
        handlers_apart(a) ==> handlers_apart(b),
        forall|c: Seq<Handler>| #[trigger]
            handlers_apart_across(a, c) ==> handlers_apart_across(b, c),
        forall|c: Seq<Handler>| #[trigger]
            handlers_apart_across(c, a) ==> handlers_apart_across(c, b),
{
    assert forall|next_id: usize| #[trigger] handlers_wf(a, next_id) implies handlers_wf(
        b,
        next_id,
    ) by {
        assert forall|i: int| 0 <= i < b.len() implies (#[trigger] b[i]).func().wf() && b[i].id()
            < next_id by {
            assert(a[i].func().wf());
        }
        assert forall|i: int, j: int| 0 <= i < j < b.len() implies (#[trigger] b[i]).id() < (
        #[trigger] b[j]).id() by {
            assert(a[i].id() < a[j].id());
        }
    }
    assert forall|allocator: &LinkedListAllocator| #[trigger]
        handlers_owned(a, allocator) implies handlers_owned(b, allocator) by {
        assert forall|i: int| 0 <= i < b.len() implies (#[trigger] b[i]).func().owned_in(
            allocator,
        ) by {
            assert(a[i].func().owned_in(allocator));
        }
    }
    assert forall|block: MemChunk| #[trigger]
        handlers_apart_from(a, block) implies handlers_apart_from(b, block) by {
        assert forall|i: int| 0 <= i < b.len() implies (#[trigger] b[i]).func().block().disjoint(
            block,
        ) by {
            assert(a[i].func().block().disjoint(block));
        }
    }
    if handlers_apart(a) {
        assert forall|i: int, j: int| 0 <= i < j < b.len() implies (
        #[trigger] b[i]).func().block().disjoint((#[trigger] b[j]).func().block()) by {
            assert(a[i].func().block().disjoint(a[j].func().block()));
        }
    }
    assert forall|c: Seq<Handler>| #[trigger]
        handlers_apart_across(a, c) implies handlers_apart_across(b, c) by {
        assert forall|i: int, j: int| 0 <= i < b.len() && 0 <= j < c.len() implies (
        #[trigger] b[i]).func().block().disjoint((#[trigger] c[j]).func().block()) by {
            assert(a[i].func().block().disjoint(c[j].func().block()));
        }
    }
    assert forall|c: Seq<Handler>| #[trigger]
        handlers_apart_across(c, a) implies handlers_apart_across(c, b) by {
        assert forall|i: int, j: int| 0 <= i < c.len() && 0 <= j < b.len() implies (
        #[trigger] c[i]).func().block().disjoint((#[trigger] b[j]).func().block()) by {
            assert(c[i].func().block().disjoint(a[j].func().block()));
        }
    }
}

/// The list `b`, which is `a` without its handler at `p` (or `a` itself,
/// when `p` is its length), has what `a` has of the properties of one list.
proof fn lemma_sub_handlers(a: Seq<Handler>, b: Seq<Handler>, p: int)
    requires
        0 <= p <= a.len(),
        b == if p < a.len() {
            a.remove(p)
        } else {
            a
        },
    ensures
        forall|next_id: usize| #[trigger] handlers_wf(a, next_id) ==> handlers_wf(b, next_id),
        forall|block: MemChunk| #[trigger]
            handlers_apart_from(a, block) ==> handlers_apart_from(b, block),
        handlers_apart(a) ==> handlers_apart(b),
{
    assert forall|next_id: usize| #[trigger] handlers_wf(a, next_id) implies handlers_wf(
        b,
        next_id,
    ) by {
        assert forall|i: int| 0 <= i < b.len() implies (#[trigger] b[i]).func().wf() && b[i].id()
            < next_id by {
            let i0 = if i >= p { i + 1 } else { i };
            if p < a.len() {
                assert(b[i] == a[i0]);
            }
        }
        assert forall|i: int, j: int| 0 <= i < j < b.len() implies (#[trigger] b[i]).id() < (
        #[trigger] b[j]).id() by {
            let i0 = if i >= p { i + 1 } else { i };
            let j0 = if j >= p { j + 1 } else { j };
            if p < a.len() {
                assert(b[i] == a[i0] && b[j] == a[j0]);
                assert(a[i0].id() < a[j0].id());
            }
        }
    }
    assert forall|block: MemChunk| #[trigger]
        handlers_apart_from(a, block) implies handlers_apart_from(b, block) by {
        assert forall|i: int| 0 <= i < b.len() implies (#[trigger] b[i]).func().block().disjoint(
            block,
        ) by {
            let i0 = if i >= p { i + 1 } else { i };
            if p < a.len() {
                assert(b[i] == a[i0]);
            }
        }
    }
    if handlers_apart(a) {
        assert forall|i: int, j: int| 0 <= i < j < b.len() implies (
        #[trigger] b[i]).func().block().disjoint((#[trigger] b[j]).func().block()) by {
            let i0 = if i >= p { i + 1 } else { i };
            let j0 = if j >= p { j + 1 } else { j };
            if p < a.len() {
                assert(b[i] == a[i0] && b[j] == a[j0]);
                assert(a[i0].func().block().disjoint(a[j0].func().block()));
            }
        }
    }
}

/// Dispatch order: a dispatch calls the handlers one by one in the order of
/// the list, which is the order in which they were hooked, each with the
/// event that was sent.
pub proof fn lemma_dispatch_order(handlers: Seq<Handler>, event: EventInfo)
    ensures
        dispatch(handlers, event).len() == handlers.len(),
        forall|i: int|
            0 <= i < handlers.len() ==> #[trigger] dispatch(handlers, event)[i] == (
                handlers[i].id(),
                event,
            ),
{
}

/// Sending an event to a kind with no handlers calls nothing.
pub proof fn lemma_dispatch_empty(event: EventInfo)
    ensures
        dispatch(Seq::<Handler>::empty(), event) == Seq::<(usize, EventInfo)>::empty(),
        Seq::<Handler>::empty().map_values(|h: Handler| h.after_call(event)) == Seq::<
            Handler,
        >::empty(),
{
    assert(dispatch(Seq::<Handler>::empty(), event) =~= Seq::<(usize, EventInfo)>::empty());
    assert(Seq::<Handler>::empty().map_values(|h: Handler| h.after_call(event)) =~= Seq::<
        Handler,
    >::empty());
}

/// Where the search for an identifier ends: at the first handler that has
/// it, or at the end of the list when none has.
pub proof fn lemma_position_from(handlers: Seq<Handler>, from: int, id: usize)
    requires
        0 <= from <= handlers.len(),
    ensures
        from <= position_from(handlers, from, id) <= handlers.len(),
        forall|j: int|
            from <= j < position_from(handlers, from, id) ==> (#[trigger] handlers[j]).id() != id,
        position_from(handlers, from, id) < handlers.len() ==> handlers[position_from(
            handlers,
            from,
            id,
        )].id() == id,
    decreases handlers.len() - from,
{
    if from < handlers.len() && handlers[from].id() != id {
        lemma_position_from(handlers, from + 1, id);
    }
}

/// Unhooking removes exactly the matching handler and no other: in a well
/// formed list one handler at most has the identifier, removing it leaves
/// every other handler in the list, in the same order, and no handler with
/// that identifier.
pub proof fn lemma_unhook_exact(handlers: Seq<Handler>, next_id: usize, id: usize)
    requires
        handlers_wf(handlers, next_id),
    ensures
        position(handlers, id) < handlers.len() <==> exists|i: int|
            0 <= i < handlers.len() && (#[trigger] handlers[i]).id() == id,
        position(handlers, id) < handlers.len() ==> {
            let p = position(handlers, id);
            let rest = handlers.remove(p);
            &&& handlers[p].id() == id
            &&& rest.len() == handlers.len() - 1
            &&& forall|i: int| 0 <= i < p ==> #[trigger] rest[i] == handlers[i]
            &&& forall|i: int| p <= i < rest.len() ==> #[trigger] rest[i] == handlers[i + 1]
            &&& forall|i: int| 0 <= i < rest.len() ==> (#[trigger] rest[i]).id() != id
            &&& handlers_wf(rest, next_id)
        },
{
    let p = position(handlers, id);
    lemma_position_from(handlers, 0, id);
    if p < handlers.len() {
        let rest = handlers.remove(p);
        assert forall|i: int| 0 <= i < rest.len() implies (#[trigger] rest[i]).id() != id by {
            if i < p {
                assert(rest[i] == handlers[i]);
                assert(handlers[i].id() < handlers[p].id());
            } else {
                assert(rest[i] == handlers[i + 1]);
                assert(handlers[p].id() < handlers[i + 1].id());
            }
        }
        lemma_sub_handlers(handlers, rest, p);
    } else {
        assert forall|i: int| 0 <= i < handlers.len() implies (#[trigger] handlers[i]).id()
            != id by {}
    }
}

} // verus!
