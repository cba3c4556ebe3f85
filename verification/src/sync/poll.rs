//! Poll tables, and condition variables that can be registered with them.

use crate::boundary::{Machine, Reply, Request, Step};
use crate::file::File;
use crate::types::AlwaysRefCounted;
use vstd::prelude::*;

verus! {

/// A view of a poll table (`struct poll_table`), for the length of one poll
/// call.
#[derive(Debug, PartialEq, Eq)]
pub struct PollTable {
    ptr: usize,
}

/// A condition variable that a poll table can wait on.
///
/// Registering it publishes its wait list to the table: from then on the
/// kernel may walk the list at any time. So the condition variable must not
/// simply be freed. [`PollCondVar::teardown`] first takes the list out of
/// every table and then waits for the walkers that are under way.
///
/// The wait list belongs to this condition variable alone.
#[derive(Debug, PartialEq, Eq)]
pub struct PollCondVar {
    wait_list: usize,
}

/// How far a registration has come.
#[derive(Clone, Copy, Debug, PartialEq, Eq, Structural)]
pub enum RegisterPhase {
    /// The table's queueing callback has been asked for.
    Reading,
    /// The callback at this address is being called.
    Registering(usize),
}

/// A registration that waits for the kernel's answer.
#[derive(Debug, PartialEq, Eq)]
pub struct RegisterWait {
    /// The address of the poll table.
    pub table: usize,
    /// The address of the file that is polled.
    pub file: usize,
    /// The address of the wait list to publish.
    pub wait_list: usize,
    /// How far the registration has come.
    pub phase: RegisterPhase,
}

/// How far the teardown of a condition variable has come.
#[derive(Clone, Copy, Debug, PartialEq, Eq, Structural)]
pub enum TeardownPhase {
    /// The wait list is being taken out of every wait table.
    Evicting,
    /// The list is out; the walkers under way are being waited for.
    Synchronizing,
}

/// A teardown that waits for the kernel's answer.
#[derive(Debug, PartialEq, Eq)]
pub struct Teardown {
    /// The address of the wait list.
    pub wait_list: usize,
    /// How far the teardown has come.
    pub phase: TeardownPhase,
}

impl PollTable {
    #[verifier::type_invariant]
    spec fn non_null(self) -> bool {
        self.ptr != 0
    }

    /// The address of the table.
    pub closed spec fn address(&self) -> usize {
        self.ptr
    }

    /// Makes a view of the poll table at `ptr`.
    ///
    /// The caller answers for what cannot be checked here: that `ptr` points
    /// at a poll table for as long as the view is used, and that the table is
    /// reached through this view alone.
    pub fn from_ptr(ptr: usize) -> (table: PollTable)
        requires
            ptr != 0,
        ensures
            table.address() == ptr,
    {
        PollTable { ptr }
    }

    /// The request that yields the table's queueing callback, as a
    /// [`Reply::Reference`]: null if the table has none.
    pub fn get_qproc(&self) -> (request: Request)
        ensures
            request == (Request::ReadQueueProc { table: self.address() }),
    {
        Request::ReadQueueProc { table: self.ptr }
    }

    /// Starts registering `cv` with this table for `file`, so that notifying
    /// `cv` wakes whoever polls through the table. A table without a queueing
    /// callback takes no registrations, and nothing is published.
    ///
    /// No ownership passes: the table merely refers to the wait list of `cv`.
    pub fn register_wait(&mut self, file: &File, cv: &PollCondVar) -> (step: Step<RegisterWait, ()>)
        ensures
            *final(self) == *old(self),
            step == RegisterWait::begin(old(self).address(), file.address(), cv.wait_list()),
    {
        Step::Call(
            RegisterWait {
                table: self.ptr,
                file: file.as_ptr(),
                wait_list: cv.wait_list,
                phase: RegisterPhase::Reading,
            },
        )
    }
}

impl RegisterWait {
    /// The first step of a registration.
    pub open spec fn begin(table: usize, file: usize, wait_list: usize) -> Step<RegisterWait, ()> {
        Step::Call(RegisterWait { table, file, wait_list, phase: RegisterPhase::Reading })
    }
}

impl Machine for RegisterWait {
    type Output = ();

    open spec fn pending(self) -> Request {
        match self.phase {
            RegisterPhase::Reading => Request::ReadQueueProc { table: self.table },
            RegisterPhase::Registering(callback) => Request::Register {
                callback,
                file: self.file,
                wait_list: self.wait_list,
                table: self.table,
            },
        }
    }

    open spec fn next(self, reply: Reply) -> Step<RegisterWait, ()> {
        match (self.phase, reply) {
            (RegisterPhase::Reading, Reply::Reference(callback)) => if callback == 0 {
                Step::Done(())
            } else {
                Step::Call(RegisterWait { phase: RegisterPhase::Registering(callback), ..self })
            },
            (RegisterPhase::Registering(_), Reply::Done) => Step::Done(()),
            _ => Step::Call(self),
        }
    }

    open spec fn budget(self) -> nat {
        match self.phase {
            RegisterPhase::Reading => 2,
            RegisterPhase::Registering(_) => 1,
        }
    }

    fn request(&self) -> (request: Request) {
        match self.phase {
            RegisterPhase::Reading => Request::ReadQueueProc { table: self.table },
            RegisterPhase::Registering(callback) => Request::Register {
                callback,
                file: self.file,
                wait_list: self.wait_list,
                table: self.table,
            },
        }
    }

    /// A table without a callback ends the registration at once; otherwise
    /// the callback is called, and the registration ends when it returns.
    fn step(self, reply: Reply) -> (step: Step<RegisterWait, ()>) {
        match (self.phase, reply) {
            (RegisterPhase::Reading, Reply::Reference(callback)) => {
                if callback == 0 {
                    Step::Done(())
                } else {
                    Step::Call(
                        RegisterWait {
                            table: self.table,
                            file: self.file,
                            wait_list: self.wait_list,
                            phase: RegisterPhase::Registering(callback),
                        },
                    )
                }
            },
            (RegisterPhase::Registering(_), Reply::Done) => Step::Done(()),
            _ => Step::Call(self),
        }
    }

    proof fn lemma_no_answer(self, reply: Reply) {
    }

    proof fn lemma_answer(self, reply: Reply) {
    }
}

impl PollCondVar {
    #[verifier::type_invariant]
    spec fn non_null(self) -> bool {
        self.wait_list != 0
    }

    /// The address of the wait list.
    pub closed spec fn spec_wait_list(&self) -> usize {
        self.wait_list
    }

    /// Makes the poll-aware wrapper of the condition variable whose wait list
    /// is at `wait_list`. Nothing is registered yet.
    pub fn new(wait_list: usize) -> (cv: PollCondVar)
        requires
            wait_list != 0,
        ensures
            cv.wait_list() == wait_list,
    {
        PollCondVar { wait_list }
    }

    /// The address of the wait list, which is never null.
    #[verifier::when_used_as_spec(spec_wait_list)]
    pub fn wait_list(&self) -> (wait_list: usize)
        ensures
            wait_list == self.spec_wait_list(),
            wait_list != 0,
    {
        proof {
            use_type_invariant(self);
        }
        self.wait_list
    }

    /// Starts the teardown that must come before the condition variable is
    /// freed. First the wait list is taken out of every wait table, and what
    /// waits on it is woken for good. Only when that is done, the teardown
    /// waits for the walkers that had found the list before. When it ends,
    /// nothing in the kernel refers to the list.
    pub fn teardown(self) -> (step: Step<Teardown, ()>)
        ensures
            step == Teardown::begin(self.wait_list()),
    {
        Step::Call(Teardown { wait_list: self.wait_list, phase: TeardownPhase::Evicting })
    }
}

impl Teardown {
    /// The first step of tearing down the wait list at `wait_list`.
    pub open spec fn begin(wait_list: usize) -> Step<Teardown, ()> {
        Step::Call(Teardown { wait_list, phase: TeardownPhase::Evicting })
    }
}

impl Machine for Teardown {
    type Output = ();

    open spec fn pending(self) -> Request {
        match self.phase {
            TeardownPhase::Evicting => Request::Evict { wait_list: self.wait_list },
            TeardownPhase::Synchronizing => Request::Synchronize,
        }
    }

    open spec fn next(self, reply: Reply) -> Step<Teardown, ()> {
        match (self.phase, reply) {
            (TeardownPhase::Evicting, Reply::Done) => Step::Call(
                Teardown { phase: TeardownPhase::Synchronizing, ..self },
            ),
            (TeardownPhase::Synchronizing, Reply::Done) => Step::Done(()),
            _ => Step::Call(self),
        }
    }

    open spec fn budget(self) -> nat {
        match self.phase {
            TeardownPhase::Evicting => 2,
            TeardownPhase::Synchronizing => 1,
        }
    }

    fn request(&self) -> (request: Request) {
        match self.phase {
            TeardownPhase::Evicting => Request::Evict { wait_list: self.wait_list },
            TeardownPhase::Synchronizing => Request::Synchronize,
        }
    }

    /// The wait for the walkers starts only when the eviction is answered.
    fn step(self, reply: Reply) -> (step: Step<Teardown, ()>) {
        match (self.phase, reply) {
            (TeardownPhase::Evicting, Reply::Done) => Step::Call(
                Teardown { wait_list: self.wait_list, phase: TeardownPhase::Synchronizing },
            ),
            (TeardownPhase::Synchronizing, Reply::Done) => Step::Done(()),
            _ => Step::Call(self),
        }
    }

    proof fn lemma_no_answer(self, reply: Reply) {
    }

    proof fn lemma_answer(self, reply: Reply) {
    }
}

} // verus!
