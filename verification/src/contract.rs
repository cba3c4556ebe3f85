//! What the kernel promises at the boundary.
//!
//! [`KernelState`] is the part of the kernel's state that the handles depend
//! on, as a mathematical value. For each [`Request`] it says what the caller
//! owes ([`KernelState::permits`]), which replies the kernel may give
//! ([`KernelState::may_reply`]) and what the state is afterwards
//! ([`KernelState::after`]). Between two requests the kernel goes on by
//! itself: [`Event`] lists what it may do then. Nothing in this module runs.

use crate::boundary::{Reply, Request};
use vstd::multiset::Multiset;
use vstd::prelude::*;

verus! {

/// A descriptor slot that is in use.
pub enum Slot {
    /// Claimed by a reservation, with no file yet.
    Reserved,
    /// Bound to the file at this address; the slot owns one reference to it.
    Bound(usize),
}

/// One request together with the reply it got.
pub struct Exchange {
    pub request: Request,
    pub reply: Reply,
}

/// Something the kernel does by itself, between two requests.
pub enum Event {
    /// A notifier finds this wait list published in a wait table and starts
    /// to walk it.
    BeginNotify(usize),
    /// A notifier has finished walking this wait list.
    EndNotify(usize),
    /// The current task starts to use the file bound to this slot without
    /// taking a reference: it relies on the slot's.
    BeginBorrow(u32),
    /// The current task ends one such use of this file.
    EndBorrow(usize),
    /// The current task is about to return to user space and runs one unit
    /// of its queued work. By then it has ended all its borrows.
    RunWork,
}

/// The kernel's state as far as the handles can tell.
pub struct KernelState {
    /// Reference count of every live object, by address. An object whose
    /// count reaches zero is destroyed and leaves the map.
    pub refcount: Map<usize, nat>,
    /// The slots in use in the current task's descriptor table.
    pub slots: Map<u32, Slot>,
    /// Flags of the current task.
    pub task_flags: u32,
    /// Units of deferred work queued for the current task and not yet run.
    pub pending: nat,
    /// The wait lists that some wait table refers to.
    pub published: Set<usize>,
    /// The wait lists that a notifier is walking right now.
    pub readers: Set<usize>,
    /// The files that the current task uses without a reference of its own,
    /// once for each such use.
    pub borrows: Multiset<usize>,
}

impl KernelState {
    /// The number of references held to `object`; zero if there is no such
    /// object.
    pub open spec fn references(self, object: usize) -> nat {
        if self.refcount.contains_key(object) {
            self.refcount[object]
        } else {
            0
        }
    }

    /// Whether `object` exists.
    pub open spec fn live(self, object: usize) -> bool {
        object != 0 && self.references(object) >= 1
    }

    /// Whether slot `fd` is unused.
    pub open spec fn unused(self, fd: u32) -> bool {
        !self.slots.contains_key(fd)
    }

    /// Whether slot `fd` is claimed and not yet bound.
    pub open spec fn reserved(self, fd: u32) -> bool {
        self.slots.contains_key(fd) && self.slots[fd] is Reserved
    }

    /// Whether slot `fd` is bound to `file`.
    pub open spec fn bound_to(self, fd: u32, file: usize) -> bool {
        self.slots.contains_key(fd) && self.slots[fd] == Slot::Bound(file)
    }

    /// The bound slots, each with its file.
    pub open spec fn bindings(self) -> Map<u32, usize> {
        Map::new(
            |fd: u32| self.slots.contains_key(fd) && self.slots[fd] is Bound,
            |fd: u32| self.slots[fd]->Bound_0,
        )
    }

    /// The slots that are bound to `file`.
    pub open spec fn binders(self, file: usize) -> Set<u32> {
        self.slots.dom().filter(|fd: u32| self.slots[fd] == Slot::Bound(file))
    }

    /// The number of references to `file` that belong to the descriptor
    /// table: one for each slot bound to it.
    pub open spec fn owed(self, file: usize) -> nat {
        self.binders(file).len()
    }

    /// Whether the current task uses `file` without a reference of its own.
    pub open spec fn borrowed(self, file: usize) -> bool {
        self.borrows.count(file) > 0
    }

    /// Whether the current task has no borrow under way, as when it returns
    /// to user space.
    pub open spec fn at_safe_point(self) -> bool {
        forall|file: usize| !self.borrowed(file)
    }

    /// The number of references to `file` that no caller may give away: those
    /// of the descriptor table, and, where the table has none left, one that
    /// keeps the file alive for as long as it is borrowed.
    pub open spec fn claimed(self, file: usize) -> nat {
        if self.owed(file) == 0 && self.borrowed(file) {
            1
        } else {
            self.owed(file)
        }
    }

    /// The number of references to `object` that are not claimed: they
    /// belong to the handles and to whoever else holds the object.
    pub open spec fn unclaimed(self, object: usize) -> int {
        self.references(object) - self.claimed(object)
    }

    /// Whether `object` has a reference that is not claimed.
    pub open spec fn spare(self, object: usize) -> bool {
        self.unclaimed(object) >= 1
    }

    /// Whether some wait table refers to `wait_list`.
    pub open spec fn has_registrations(self, wait_list: usize) -> bool {
        self.published.contains(wait_list)
    }

    /// Whether the memory of `wait_list` can be freed: no wait table refers to
    /// it and no notifier is walking it.
    pub open spec fn unobserved(self, wait_list: usize) -> bool {
        !self.published.contains(wait_list) && !self.readers.contains(wait_list)
    }

    /// Whether this is a state a kernel can be in: every object that exists
    /// has an address and at least one reference, the descriptor table is
    /// finite, every slot number fits a C `int`, what a slot is bound to has
    /// an address, and every file has the references that are claimed: one
    /// for each slot bound to it, and one as long as it is borrowed.
    pub open spec fn well_formed(self) -> bool {
        &&& forall|object: usize| #[trigger]
            self.refcount.contains_key(object) ==> object != 0 && self.refcount[object] >= 1
        &&& self.slots.dom().finite()
        &&& forall|fd: u32| #[trigger] self.slots.contains_key(fd) ==> fd <= i32::MAX
        &&& forall|fd: u32| #[trigger]
            self.slots.contains_key(fd) ==> self.slots[fd] != Slot::Bound(0)
        &&& forall|file: usize| #[trigger] self.claimed(file) <= self.references(file)
    }

    /// The reference counts after one more reference to `object`.
    pub open spec fn plus_one(self, object: usize) -> Map<usize, nat> {
        self.refcount.insert(object, self.references(object) + 1)
    }

    /// The reference counts after one reference to `object` is dropped.
    pub open spec fn minus_one(self, object: usize) -> Map<usize, nat> {
        if self.references(object) <= 1 {
            self.refcount.remove(object)
        } else {
            self.refcount.insert(object, (self.references(object) - 1) as nat)
        }
    }

    /// What the caller owes before it makes `request`: the objects it names
    /// exist, and where the request gives a reference away, there is one to
    /// give that is not claimed.
    pub open spec fn permits(self, request: Request) -> bool {
        match request {
            Request::Increment { object, .. } => self.live(object),
            Request::Decrement { object, .. } => self.live(object) && self.spare(object),
            Request::CloseUnderlying { file } => self.live(file) && self.spare(file),
            Request::ReadCredential { file } | Request::ReadFlags { file } => self.live(file),
            Request::ReadEuid { cred } | Request::ReadSecid { cred } => self.live(cred),
            Request::Bind { fd, file } => self.reserved(fd) && self.live(file) && self.spare(file),
            Request::ReleaseSlot { fd } => self.reserved(fd),
            Request::Register { callback, file, wait_list, .. } => callback != 0 && self.live(file)
                && wait_list != 0,
            Request::AcquireById { .. }
            | Request::ReserveSlot { .. }
            | Request::Detach { .. }
            | Request::ReadTaskFlags
            | Request::Schedule
            | Request::ReadQueueProc { .. }
            | Request::Evict { .. }
            | Request::Synchronize => true,
        }
    }

    /// Whether the kernel may answer `request` with `reply` in this state.
    pub open spec fn may_reply(self, request: Request, reply: Reply) -> bool {
        match request {
            Request::AcquireById { fd } => reply matches Reply::Reference(file) && (file == 0
                || self.bound_to(fd, file)),
            Request::Detach { fd } => reply matches Reply::Reference(file) && if self.slots.contains_key(fd)
                && self.slots[fd] is Bound {
                self.bound_to(fd, file) && file != 0
            } else {
                file == 0
            },
            Request::ReserveSlot { .. } => reply matches Reply::Status(fd) && (fd < 0 || self.unused(
                fd as u32,
            )),
            Request::ReadCredential { .. } => reply matches Reply::Reference(cred) && cred != 0,
            Request::ReadTaskFlags => reply == Reply::Word(self.task_flags),
            _ => request.answered_by(reply),
        }
    }

    /// The state after `request` was made and answered with `reply`.
    pub open spec fn after(self, request: Request, reply: Reply) -> KernelState {
        match (request, reply) {
            (Request::AcquireById { .. }, Reply::Reference(file)) if file != 0 => KernelState {
                refcount: self.plus_one(file),
                ..self
            },
            (Request::Increment { object, .. }, _) => KernelState {
                refcount: self.plus_one(object),
                ..self
            },
            (Request::Decrement { object, .. }, _) => KernelState {
                refcount: self.minus_one(object),
                ..self
            },
            (Request::CloseUnderlying { file }, _) => KernelState {
                refcount: self.minus_one(file),
                ..self
            },
            (Request::ReserveSlot { .. }, Reply::Status(fd)) if fd >= 0 => KernelState {
                slots: self.slots.insert(fd as u32, Slot::Reserved),
                ..self
            },
            (Request::Bind { fd, file }, _) => KernelState {
                slots: self.slots.insert(fd, Slot::Bound(file)),
                ..self
            },
            (Request::ReleaseSlot { fd }, _) => KernelState {
                slots: self.slots.remove(fd),
                ..self
            },
            (Request::Detach { fd }, Reply::Reference(file)) if file != 0 => KernelState {
                slots: self.slots.remove(fd),
                ..self
            },
            (Request::Schedule, Reply::Status(status)) if status == 0 => KernelState {
                pending: self.pending + 1,
                ..self
            },
            (Request::Register { wait_list, .. }, _) => KernelState {
                published: self.published.insert(wait_list),
                ..self
            },
            (Request::Evict { wait_list }, _) => KernelState {
                published: self.published.remove(wait_list),
                ..self
            },
            (Request::Synchronize, _) => KernelState { readers: Set::empty(), ..self },
            _ => self,
        }
    }

    /// Whether the exchanges of `trace` can happen one after the other from
    /// this state, the caller keeping its side and the kernel its own.
    pub open spec fn admits(self, trace: Seq<Exchange>) -> bool
        decreases trace.len(),
    {
        trace.len() == 0 || {
            &&& self.permits(trace[0].request)
            &&& self.may_reply(trace[0].request, trace[0].reply)
            &&& self.after(trace[0].request, trace[0].reply).admits(trace.drop_first())
        }
    }

    /// Whether the kernel may give the replies of `trace` to its requests, one
    /// after the other from this state. Unlike [`KernelState::admits`] this
    /// asks nothing of the caller.
    pub open spec fn answers(self, trace: Seq<Exchange>) -> bool
        decreases trace.len(),
    {
        trace.len() == 0 || {
            &&& self.may_reply(trace[0].request, trace[0].reply)
            &&& self.after(trace[0].request, trace[0].reply).answers(trace.drop_first())
        }
    }

    /// The state after the exchanges of `trace`.
    pub open spec fn run(self, trace: Seq<Exchange>) -> KernelState
        decreases trace.len(),
    {
        if trace.len() == 0 {
            self
        } else {
            self.after(trace[0].request, trace[0].reply).run(trace.drop_first())
        }
    }

    /// A slot that is bound to `file` is one of the references counted for
    /// it: the file exists.
    pub proof fn lemma_bound_is_live(self, fd: u32, file: usize)
        requires
            self.well_formed(),
            self.bound_to(fd, file),
        ensures
            self.live(file),
            self.owed(file) >= 1,
    {
        assert(self.binders(file).contains(fd));
        assert(self.claimed(file) <= self.references(file));
    }

    /// Which slots are bound to `file` after an exchange.
    pub proof fn lemma_binders_after(self, request: Request, reply: Reply, file: usize)
        requires
            self.well_formed(),
            self.permits(request),
            self.may_reply(request, reply),
        ensures
            self.after(request, reply).binders(file) == match (request, reply) {
                (Request::Bind { fd, file: bound }, _) if bound == file => self.binders(
                    file,
                ).insert(fd),
                (Request::Detach { fd }, Reply::Reference(detached)) if detached == file
                    && file != 0 => self.binders(file).remove(fd),
                _ => self.binders(file),
            },
            self.after(request, reply).owed(file) == match (request, reply) {
                (Request::Bind { file: bound, .. }, _) if bound == file => self.owed(file) as int
                    + 1,
                (Request::Detach { .. }, Reply::Reference(detached)) if detached == file && file
                    != 0 => self.owed(file) - 1,
                _ => self.owed(file) as int,
            },
    {
        let next = self.after(request, reply);
        match (request, reply) {
            (Request::Bind { fd, file: bound }, _) if bound == file => {
                assert(next.binders(file) =~= self.binders(file).insert(fd));
                assert(!self.binders(file).contains(fd));
            },
            (Request::Detach { fd }, Reply::Reference(detached)) if detached == file && file != 0 => {
                assert(next.binders(file) =~= self.binders(file).remove(fd));
                assert(self.binders(file).contains(fd));
            },
            _ => {
                assert(next.binders(file) =~= self.binders(file));
            },
        }
    }

    /// Every reply that the kernel may give has the shape of an answer.
    pub proof fn lemma_reply_answers(self, request: Request, reply: Reply)
        requires
            self.may_reply(request, reply),
        ensures
            request.answered_by(reply),
    {
    }

    /// A kernel that keeps its side never gives a reply that has not the
    /// shape of an answer, so it never brings a driver to a halt.
    pub proof fn lemma_answers_fit(self, trace: Seq<Exchange>)
        requires
            self.answers(trace),
        ensures
            forall|i: int|
                0 <= i < trace.len() ==> (#[trigger] trace[i]).request.answered_by(trace[i].reply),
        decreases trace.len(),
    {
        if trace.len() > 0 {
            self.lemma_reply_answers(trace[0].request, trace[0].reply);
            let rest = trace.drop_first();
            self.after(trace[0].request, trace[0].reply).lemma_answers_fit(rest);
            assert forall|i: int| 0 <= i < trace.len() implies (#[trigger] trace[i]).request.answered_by(
                trace[i].reply,
            ) by {
                if i > 0 {
                    assert(trace[i] == rest[i - 1]);
                }
            }
        }
    }

    /// Why a close has to be deferred: while the task borrows a file whose
    /// only reference is its slot's, the kernel does not permit the caller to
    /// take the file out of the slot and close it straight away. That would
    /// free the file under the borrow.
    pub proof fn lemma_borrow_forbids_direct_close(self, fd: u32, file: usize)
        requires
            self.well_formed(),
            self.bound_to(fd, file),
            self.references(file) == 1,
            self.borrowed(file),
        ensures
            self.may_reply(Request::Detach { fd }, Reply::Reference(file)),
            !self.after(Request::Detach { fd }, Reply::Reference(file)).permits(
                Request::CloseUnderlying { file },
            ),
            !self.after(Request::Detach { fd }, Reply::Reference(file)).permits(
                Request::Decrement { kind: crate::boundary::ObjectKind::File, object: file },
            ),
    {
        self.lemma_bound_is_live(fd, file);
        self.lemma_binders_after(Request::Detach { fd }, Reply::Reference(file), file);
    }

    /// An exchange leads from one state a kernel can be in to another.
    pub proof fn lemma_after_well_formed(self, request: Request, reply: Reply)
        requires
            self.well_formed(),
            self.permits(request),
            self.may_reply(request, reply),
        ensures
            self.after(request, reply).well_formed(),
    {
        let next = self.after(request, reply);
        assert forall|file: usize| #[trigger] next.claimed(file) <= next.references(file) by {
            self.lemma_binders_after(request, reply, file);
            assert(self.claimed(file) <= self.references(file));
            match (request, reply) {
                (Request::Detach { fd }, Reply::Reference(detached)) if detached == file && file
                    != 0 => {
                    self.lemma_bound_is_live(fd, file);
                },
                _ => {},
            }
        }
    }

    /// A trace leads from one state a kernel can be in to another.
    pub proof fn lemma_run_well_formed(self, trace: Seq<Exchange>)
        requires
            self.well_formed(),
            self.admits(trace),
        ensures
            self.run(trace).well_formed(),
        decreases trace.len(),
    {
        if trace.len() > 0 {
            self.lemma_after_well_formed(trace[0].request, trace[0].reply);
            self.after(trace[0].request, trace[0].reply).lemma_run_well_formed(trace.drop_first());
        }
    }

    /// A trace is gone through exchange by exchange.
    pub proof fn lemma_first(self, first: Exchange, rest: Seq<Exchange>)
        ensures
            self.run(seq![first] + rest) == self.after(first.request, first.reply).run(rest),
            self.answers(seq![first] + rest) <==> self.may_reply(first.request, first.reply)
                && self.after(first.request, first.reply).answers(rest),
            self.admits(seq![first] + rest) <==> self.permits(first.request) && self.may_reply(
                first.request,
                first.reply,
            ) && self.after(first.request, first.reply).admits(rest),
    {
        assert((seq![first] + rest).drop_first() =~= rest);
    }

    /// Whether `event` can happen in this state. A notifier reaches a wait
    /// list only through a wait table that refers to it, a borrow starts from
    /// a bound slot, and queued work runs only when no borrow is under way.
    pub open spec fn allows(self, event: Event) -> bool {
        match event {
            Event::BeginNotify(wait_list) => self.published.contains(wait_list),
            Event::EndNotify(wait_list) => self.readers.contains(wait_list),
            Event::BeginBorrow(fd) => self.slots.contains_key(fd) && self.slots[fd] is Bound,
            Event::EndBorrow(file) => self.borrowed(file),
            Event::RunWork => self.pending >= 1 && self.at_safe_point(),
        }
    }

    /// The state after `event`.
    pub open spec fn following(self, event: Event) -> KernelState {
        match event {
            Event::BeginNotify(wait_list) => KernelState {
                readers: self.readers.insert(wait_list),
                ..self
            },
            Event::EndNotify(wait_list) => KernelState {
                readers: self.readers.remove(wait_list),
                ..self
            },
            Event::BeginBorrow(fd) => KernelState {
                borrows: self.borrows.insert(self.slots[fd]->Bound_0),
                ..self
            },
            Event::EndBorrow(file) => KernelState { borrows: self.borrows.remove(file), ..self },
            Event::RunWork => KernelState { pending: (self.pending - 1) as nat, ..self },
        }
    }

    /// Whether the events of `events` can happen one after the other.
    pub open spec fn allows_all(self, events: Seq<Event>) -> bool
        decreases events.len(),
    {
        events.len() == 0 || (self.allows(events[0]) && self.following(events[0]).allows_all(
            events.drop_first(),
        ))
    }

    /// The state after the events of `events`.
    pub open spec fn following_all(self, events: Seq<Event>) -> KernelState
        decreases events.len(),
    {
        if events.len() == 0 {
            self
        } else {
            self.following(events[0]).following_all(events.drop_first())
        }
    }

    /// An event leads from one state a kernel can be in to another, and
    /// changes neither a reference count nor a slot.
    pub proof fn lemma_following_well_formed(self, event: Event)
        requires
            self.well_formed(),
            self.allows(event),
        ensures
            self.following(event).well_formed(),
            self.following(event).refcount == self.refcount,
            self.following(event).slots == self.slots,
            self.following(event).published == self.published,
    {
        let next = self.following(event);
        assert forall|file: usize| #[trigger] next.claimed(file) <= next.references(file) by {
            assert(self.claimed(file) <= self.references(file));
            assert(next.binders(file) == self.binders(file));
            if let Event::BeginBorrow(fd) = event {
                if self.slots[fd]->Bound_0 == file {
                    self.lemma_bound_is_live(fd, file);
                }
            }
        }
    }

    /// Events lead from one state a kernel can be in to another, and change
    /// neither a reference count nor a slot.
    pub proof fn lemma_following_all_well_formed(self, events: Seq<Event>)
        requires
            self.well_formed(),
            self.allows_all(events),
        ensures
            self.following_all(events).well_formed(),
            self.following_all(events).refcount == self.refcount,
            self.following_all(events).slots == self.slots,
            self.following_all(events).published == self.published,
        decreases events.len(),
    {
        if events.len() > 0 {
            self.lemma_following_well_formed(events[0]);
            self.following(events[0]).lemma_following_all_well_formed(events.drop_first());
        }
    }
}

} // verus!
