//! The vocabulary spoken across the boundary with the kernel.

use vstd::prelude::*;

verus! {

/// The two kinds of reference-counted kernel object the crate has handles for.
#[derive(Clone, Copy, Debug, PartialEq, Eq, Structural)]
pub enum ObjectKind {
    /// An open file (`struct file`); counted with `get_file` and `fput`.
    File,
    /// A credential (`struct cred`); counted with `get_cred` and `put_cred`.
    Credential,
}

/// One call into the kernel.
///
/// Objects are named by their address; address 0 is the null reference.
#[derive(Clone, Copy, Debug, PartialEq, Eq, Structural)]
pub enum Request {
    /// Look up the file bound to descriptor `fd` of the current task and take
    /// one reference to it (`fget`).
    AcquireById { fd: u32 },
    /// Add one to the reference count of `object`.
    Increment { kind: ObjectKind, object: usize },
    /// Take one from the reference count of `object`; the kernel destroys the
    /// object when the count reaches zero.
    Decrement { kind: ObjectKind, object: usize },
    /// Read the credential pointer of `file`, which never changes once the file
    /// is open.
    ReadCredential { file: usize },
    /// Read the flags word of `file` once, atomically: the kernel may change it
    /// at any time.
    ReadFlags { file: usize },
    /// Read the effective user id of `cred`.
    ReadEuid { cred: usize },
    /// Ask the security module for the id of `cred`
    /// (`security_cred_getsecid`).
    ReadSecid { cred: usize },
    /// Claim an unused descriptor slot of the current task
    /// (`get_unused_fd_flags`).
    ReserveSlot { flags: u32 },
    /// Bind `file`, together with one reference to it, to the reserved slot
    /// `fd` (`fd_install`).
    Bind { fd: u32, file: usize },
    /// Give the reserved slot `fd` back unbound (`put_unused_fd`).
    ReleaseSlot { fd: u32 },
    /// Take the file out of slot `fd` and free the slot; the reference that
    /// the slot held passes to the caller (`close_fd_get_file`).
    Detach { fd: u32 },
    /// Flush `file` for the current task and drop one reference to it
    /// (`filp_close`).
    CloseUnderlying { file: usize },
    /// Read the flags of the current task.
    ReadTaskFlags,
    /// Queue one unit of work that runs when the current task next returns to
    /// user space (`task_work_add` with `TWA_RESUME`).
    Schedule,
    /// Read the queueing callback of the poll table at `table`; null when the
    /// table has none.
    ReadQueueProc { table: usize },
    /// Call `callback`, the queueing callback of `table`, on `file` and
    /// `wait_list`: it links the wait list into the table.
    Register { callback: usize, file: usize, wait_list: usize, table: usize },
    /// Unlink `wait_list` from every wait table it was published to and wake
    /// its waiters for good (`__wake_up_pollfree`).
    Evict { wait_list: usize },
    /// Wait until every reader that is under way has finished
    /// (`synchronize_rcu`).
    Synchronize,
}

/// What the kernel hands back for a [`Request`].
#[derive(Clone, Copy, Debug, PartialEq, Eq, Structural)]
pub enum Reply {
    /// The call returns nothing of interest.
    Done,
    /// A C `int`: zero or a slot number on success, a negative errno otherwise.
    Status(i32),
    /// A 32-bit word read from kernel memory.
    Word(u32),
    /// The address of a kernel object, or 0 for none.
    Reference(usize),
}

/// Where an operation stands: it either waits for the answer to a request, or
/// it has finished.
#[derive(Debug, PartialEq, Eq)]
pub enum Step<M, T> {
    /// The machine waits: its pending request has to be performed, and the
    /// reply handed to it.
    Call(M),
    /// The operation has ended with this result.
    Done(T),
}

/// An operation that is under way and waits for the kernel to answer its
/// pending request.
///
/// To run an operation, perform the request of the machine in each
/// [`Step::Call`] and hand the reply to [`Machine::step`], until the step is
/// [`Step::Done`].
pub trait Machine: Sized {
    /// What the operation yields in the end.
    type Output;

    /// The request that the operation waits on.
    spec fn pending(self) -> Request;

    /// How the operation goes on when `reply` comes in.
    spec fn next(self, reply: Reply) -> Step<Self, Self::Output>;

    /// A bound on the number of answers that the operation still needs.
    spec fn budget(self) -> nat;

    /// The request that the operation waits on.
    fn request(&self) -> (request: Request)
        ensures
            request == self.pending(),
    ;

    /// Takes the kernel's reply to the pending request and moves the
    /// operation on.
    fn step(self, reply: Reply) -> (step: Step<Self, Self::Output>)
        ensures
            step == self.next(reply),
    ;

    /// A reply that has not the shape of an answer to the pending request
    /// changes nothing: the request stands.
    proof fn lemma_no_answer(self, reply: Reply)
        requires
            !self.pending().answered_by(reply),
        ensures
            self.next(reply) == Step::<Self, Self::Output>::Call(self),
    ;

    /// A reply that has the shape of an answer brings the operation nearer to
    /// its end.
    proof fn lemma_answer(self, reply: Reply)
        requires
            self.pending().answered_by(reply),
        ensures
            self.next(reply) matches Step::Call(next) ==> next.budget() < self.budget(),
    ;
}

impl Request {
    /// Whether `reply` has the shape of an answer to this request.
    pub open spec fn answered_by(self, reply: Reply) -> bool {
        match self {
            Request::AcquireById { .. }
            | Request::ReadCredential { .. }
            | Request::Detach { .. }
            | Request::ReadQueueProc { .. } => reply is Reference,
            Request::ReadFlags { .. }
            | Request::ReadEuid { .. }
            | Request::ReadSecid { .. }
            | Request::ReadTaskFlags => reply is Word,
            Request::ReserveSlot { .. } | Request::Schedule => reply is Status,
            Request::Increment { .. }
            | Request::Decrement { .. }
            | Request::Bind { .. }
            | Request::ReleaseSlot { .. }
            | Request::CloseUnderlying { .. }
            | Request::Register { .. }
            | Request::Evict { .. }
            | Request::Synchronize => reply is Done,
        }
    }

    /// Whether `reply` has the shape of an answer to this request.
    pub fn is_answered_by(&self, reply: &Reply) -> (fits: bool)
        ensures
            fits == self.answered_by(*reply),
    {
        match self {
            Request::AcquireById { .. }
            | Request::ReadCredential { .. }
            | Request::Detach { .. }
            | Request::ReadQueueProc { .. } => matches!(reply, Reply::Reference(_)),
            Request::ReadFlags { .. }
            | Request::ReadEuid { .. }
            | Request::ReadSecid { .. }
            | Request::ReadTaskFlags => matches!(reply, Reply::Word(_)),
            Request::ReserveSlot { .. } | Request::Schedule => matches!(reply, Reply::Status(_)),
            Request::Increment { .. }
            | Request::Decrement { .. }
            | Request::Bind { .. }
            | Request::ReleaseSlot { .. }
            | Request::CloseUnderlying { .. }
            | Request::Register { .. }
            | Request::Evict { .. }
            | Request::Synchronize => matches!(reply, Reply::Done),
        }
    }
}

} // verus!
