//! Files and file descriptors.

use crate::boundary::{Machine, ObjectKind, Reply, Request, Step};
use crate::error::{Error, EBADF, ESRCH};
use crate::types::{ARef, AlwaysRefCounted};
use std::marker::PhantomData;
use std::rc::Rc;
use vstd::prelude::*;
use vstd::std_specs::convert::FromSpecImpl;

verus! {

/// The bit of a task's flags that marks a kernel thread.
pub const PF_KTHREAD: u32 = 0x0020_0000;

/// Why a descriptor could not be closed in a deferred manner.
#[derive(Clone, Copy, Debug, PartialEq, Eq, Structural)]
pub enum DeferredFdCloseError {
    /// No work can be queued for the current task: it is a kernel thread,
    /// which never returns to user space, or the kernel refused the work.
    TaskWorkUnavailable,
    /// The descriptor is not open.
    BadFd,
}

/// The error of operations that can only fail with `EBADF`.
#[derive(Clone, Copy, Debug, PartialEq, Eq, Structural)]
pub struct BadFdError;

impl DeferredFdCloseError {
    /// The errno that stands for this error.
    pub open spec fn errno(self) -> i32 {
        match self {
            DeferredFdCloseError::TaskWorkUnavailable => (-ESRCH) as i32,
            DeferredFdCloseError::BadFd => (-EBADF) as i32,
        }
    }

    /// The name of that errno.
    pub open spec fn spec_name(&self) -> Seq<char> {
        match self {
            DeferredFdCloseError::TaskWorkUnavailable => "ESRCH"@,
            DeferredFdCloseError::BadFd => "EBADF"@,
        }
    }

    /// The name of the errno that stands for this error, as the kernel
    /// prints it.
    pub fn name(&self) -> (name: &'static str)
        ensures
            name@ == self.spec_name(),
    {
        match self {
            DeferredFdCloseError::TaskWorkUnavailable => "ESRCH",
            DeferredFdCloseError::BadFd => "EBADF",
        }
    }
}

impl BadFdError {
    /// The name of the errno that stands for this error: `EBADF`.
    pub fn name(&self) -> (name: &'static str)
        ensures
            name@ == "EBADF"@,
    {
        "EBADF"
    }
}

impl From<DeferredFdCloseError> for Error {
    fn from(err: DeferredFdCloseError) -> (error: Error) {
        match err {
            DeferredFdCloseError::TaskWorkUnavailable => Error::from_errno(-ESRCH),
            DeferredFdCloseError::BadFd => Error::from_errno(-EBADF),
        }
    }
}

impl FromSpecImpl<DeferredFdCloseError> for Error {
    open spec fn obeys_from_spec() -> bool {
        true
    }

    open spec fn from_spec(err: DeferredFdCloseError) -> Error {
        Error::of(err.errno())
    }
}

impl From<BadFdError> for Error {
    fn from(err: BadFdError) -> (error: Error) {
        Error::from_errno(-EBADF)
    }
}

impl FromSpecImpl<BadFdError> for Error {
    open spec fn obeys_from_spec() -> bool {
        true
    }

    open spec fn from_spec(err: BadFdError) -> Error {
        Error::of((-EBADF) as i32)
    }
}

/// A view of an open file (`struct file`).
///
/// The view holds no reference of its own. An [`ARef<File>`] does: it keeps
/// the file alive until it is released.
#[derive(Clone, Copy, Debug, PartialEq, Eq, Structural)]
pub struct File {
    ptr: usize,
}

/// A descriptor lookup that waits for the kernel's answer.
#[derive(Debug, PartialEq, Eq)]
pub struct Fget {
    /// The descriptor looked up.
    pub fd: u32,
}

impl File {
    #[verifier::type_invariant]
    spec fn non_null(self) -> bool {
        self.ptr != 0
    }

    /// The view of the file at `ptr`.
    pub closed spec fn at(ptr: usize) -> File {
        File { ptr }
    }

    /// A view is known by its address.
    pub proof fn lemma_at(self)
        ensures
            self == Self::at(self.address()),
            forall|ptr: usize| #[trigger] Self::at(ptr).address() == ptr,
    {
    }

    /// Starts the lookup of descriptor `fd` of the current task. It ends in
    /// a counted handle to the file bound there, or in [`BadFdError`].
    pub fn fget(fd: u32) -> (step: Step<Fget, Result<ARef<File>, BadFdError>>)
        ensures
            step == Fget::begin(fd),
    {
        Step::Call(Fget { fd })
    }

    /// Makes a view of the file at `ptr`.
    ///
    /// The caller answers for what cannot be checked here: that `ptr` points
    /// at a file, and that the file's reference count stays above zero for as
    /// long as the view is used.
    pub fn from_ptr(ptr: usize) -> (file: File)
        requires
            ptr != 0,
        ensures
            file == File::at(ptr),
            file.address() == ptr,
    {
        File { ptr }
    }

    /// The address of the file, which is never null.
    pub fn as_ptr(&self) -> (ptr: usize)
        ensures
            ptr == self.address(),
            ptr != 0,
    {
        proof {
            use_type_invariant(self);
        }
        self.ptr
    }

    /// The request that yields the credential of the task that opened the
    /// file, as a [`Reply::Reference`] for
    /// [`crate::cred::Credential::from_ptr`]. The file keeps that credential
    /// alive, so the view made from the reply is good for as long as the file
    /// is.
    pub fn cred(&self) -> (request: Request)
        ensures
            request == (Request::ReadCredential { file: self.address() }),
    {
        Request::ReadCredential { file: self.ptr }
    }

    /// The request that yields the file's flags, as a [`Reply::Word`]. The
    /// kernel may change the flags at any time, so every call stands for one
    /// fresh, atomic read.
    pub fn flags(&self) -> (request: Request)
        ensures
            request == (Request::ReadFlags { file: self.address() }),
    {
        Request::ReadFlags { file: self.ptr }
    }
}

impl AlwaysRefCounted for File {
    open spec fn kind() -> ObjectKind {
        ObjectKind::File
    }

    closed spec fn address(&self) -> usize {
        self.ptr
    }

    fn inc_ref(&self) -> (request: Request) {
        Request::Increment { kind: ObjectKind::File, object: self.ptr }
    }

    fn dec_ref(&self) -> (request: Request) {
        Request::Decrement { kind: ObjectKind::File, object: self.ptr }
    }
}

impl Fget {
    /// The first step of looking up `fd`.
    pub open spec fn begin(fd: u32) -> Step<Fget, Result<ARef<File>, BadFdError>> {
        Step::Call(Fget { fd })
    }
}

impl Machine for Fget {
    type Output = Result<ARef<File>, BadFdError>;

    open spec fn pending(self) -> Request {
        Request::AcquireById { fd: self.fd }
    }

    open spec fn next(self, reply: Reply) -> Step<Fget, Result<ARef<File>, BadFdError>> {
        match reply {
            Reply::Reference(file) => if file == 0 {
                Step::Done(Err(BadFdError))
            } else {
                Step::Done(Ok(ARef::holding(File::at(file))))
            },
            _ => Step::Call(self),
        }
    }

    open spec fn budget(self) -> nat {
        1
    }

    fn request(&self) -> (request: Request) {
        Request::AcquireById { fd: self.fd }
    }

    /// A null reference means that nothing is open at the descriptor. Any
    /// other reference is a file, and the kernel has counted one reference
    /// for the caller, which the handle takes over.
    fn step(self, reply: Reply) -> (step: Step<Fget, Result<ARef<File>, BadFdError>>) {
        match reply {
            Reply::Reference(file) => {
                if file == 0 {
                    Step::Done(Err(BadFdError))
                } else {
                    Step::Done(Ok(ARef::from_raw(File::from_ptr(file))))
                }
            },
            _ => Step::Call(self),
        }
    }

    proof fn lemma_no_answer(self, reply: Reply) {
    }

    proof fn lemma_answer(self, reply: Reply) {
    }
}

/// A reserved descriptor slot.
///
/// A descriptor comes into being in two steps: first a slot is reserved, then
/// the reservation is committed with [`FileDescriptorReservation::fd_install`]
/// or given up with [`FileDescriptorReservation::cancel`]. Reserving may fail;
/// the two ways out cannot, and each of them uses the reservation up.
///
/// The slot belongs to the task that reserved it, so a reservation cannot be
/// sent to another thread.
#[derive(Debug, PartialEq, Eq)]
#[must_use]
pub struct FileDescriptorReservation {
    fd: u32,
    _not_send: PhantomData<Rc<()>>,
}

/// A reservation that waits for the kernel's answer.
#[derive(Debug, PartialEq, Eq)]
pub struct GetUnusedFd {
    /// The flags the slot was asked for with.
    pub flags: u32,
}

impl FileDescriptorReservation {
    /// The number of the reserved slot.
    pub closed spec fn slot(&self) -> u32 {
        self.fd
    }

    /// The reservation of slot `fd`.
    pub closed spec fn of(fd: u32) -> FileDescriptorReservation {
        FileDescriptorReservation { fd, _not_send: PhantomData }
    }

    /// A reservation is known by its slot.
    pub proof fn lemma_of(self)
        ensures
            self == Self::of(self.slot()),
            forall|fd: u32| #[trigger] Self::of(fd).slot() == fd,
    {
    }

    /// The request that commits this reservation with `file`.
    pub open spec fn install_request(&self, file: ARef<File>) -> Request {
        Request::Bind { fd: self.slot(), file: file.object().address() }
    }

    /// The request that gives this reservation up.
    pub open spec fn cancel_request(&self) -> Request {
        Request::ReleaseSlot { fd: self.slot() }
    }

    /// Starts the reservation of an unused slot in the descriptor table of the
    /// current task. It ends in the reservation, or in the error the kernel
    /// gave: the table is full, or `flags` are not valid.
    pub fn get_unused_fd_flags(flags: u32) -> (step: Step<
        GetUnusedFd,
        Result<FileDescriptorReservation, Error>,
    >)
        ensures
            step == GetUnusedFd::begin(flags),
    {
        Step::Call(GetUnusedFd { flags })
    }

    /// The number of the reserved slot.
    pub fn reserved_fd(&self) -> (fd: u32)
        ensures
            fd == self.slot(),
    {
        self.fd
    }

    /// Commits the reservation: the returned request binds `file` to the
    /// reserved slot. Both the reservation and the handle are used up. The
    /// reference that the handle owned belongs to the descriptor table from
    /// then on, so no request ever releases it on the handle's behalf.
    pub fn fd_install(self, file: ARef<File>) -> (request: Request)
        ensures
            request == self.install_request(file),
    {
        Request::Bind { fd: self.fd, file: file.into_raw().as_ptr() }
    }

    /// Gives the reservation up: the returned request hands the slot back
    /// with nothing bound to it.
    pub fn cancel(self) -> (request: Request)
        ensures
            request == self.cancel_request(),
    {
        Request::ReleaseSlot { fd: self.fd }
    }
}

impl GetUnusedFd {
    /// The first step of reserving a slot.
    pub open spec fn begin(flags: u32) -> Step<
        GetUnusedFd,
        Result<FileDescriptorReservation, Error>,
    > {
        Step::Call(GetUnusedFd { flags })
    }
}

impl Machine for GetUnusedFd {
    type Output = Result<FileDescriptorReservation, Error>;

    open spec fn pending(self) -> Request {
        Request::ReserveSlot { flags: self.flags }
    }

    open spec fn next(self, reply: Reply) -> Step<
        GetUnusedFd,
        Result<FileDescriptorReservation, Error>,
    > {
        match reply {
            Reply::Status(fd) => if fd < 0 {
                Step::Done(Err(Error::of(Error::clamp(fd))))
            } else {
                Step::Done(Ok(FileDescriptorReservation::of(fd as u32)))
            },
            _ => Step::Call(self),
        }
    }

    open spec fn budget(self) -> nat {
        1
    }

    fn request(&self) -> (request: Request) {
        Request::ReserveSlot { flags: self.flags }
    }

    /// A negative status is the kernel's errno, and no slot is held; any
    /// other status is the number of the slot, now reserved.
    fn step(self, reply: Reply) -> (step: Step<
        GetUnusedFd,
        Result<FileDescriptorReservation, Error>,
    >) {
        match reply {
            Reply::Status(fd) => {
                if fd < 0 {
                    Step::Done(Err(Error::from_errno(fd)))
                } else {
                    Step::Done(Ok(FileDescriptorReservation { fd: fd as u32, _not_send: PhantomData }))
                }
            },
            _ => Step::Call(self),
        }
    }

    proof fn lemma_no_answer(self, reply: Reply) {
    }

    proof fn lemma_answer(self, reply: Reply) {
    }
}

/// The life of the token behind a deferred close. It only ever moves forward:
/// `Empty`, `Scheduled`, `Filled`, `Executed`.
#[derive(Clone, Copy, Debug, PartialEq, Eq, Structural)]
pub enum CloserState {
    /// Created; nothing is queued and no file is recorded.
    Empty,
    /// Queued as deferred work, with no file recorded: running it does
    /// nothing.
    Scheduled,
    /// Queued, and one reference to the file at this address is recorded:
    /// running it releases that reference.
    Filled(usize),
    /// Run, or destroyed before it was ever queued.
    Executed,
}

/// Closes a descriptor in a way that is safe even while the current task
/// uses the file through a borrow that took no reference.
///
/// Closing means two things: taking the file out of the descriptor table, and
/// dropping the table's reference. Dropping it at once could free the file
/// under such a borrow. So the closer takes the file out at once, and leaves
/// one reference to be dropped by deferred work, which runs when the task
/// next returns to user space: by then every such borrow has ended.
#[derive(Debug, PartialEq, Eq)]
pub struct DeferredFdCloser {
    token: (),
}

/// How far a deferred close has come.
#[derive(Clone, Copy, Debug, PartialEq, Eq, Structural)]
pub enum ClosePhase {
    /// The flags of the current task have been asked for.
    Probing,
    /// The deferred work has been handed to the kernel.
    Scheduling,
    /// The work is queued; the file has been asked out of its slot.
    Detaching,
    /// The file at this address is out of its slot; one more reference to it
    /// has been asked for.
    Acquiring(usize),
    /// The extra reference is held; the file is being closed.
    Closing(usize),
}

/// A deferred close that waits for the kernel's answer.
#[derive(Debug, PartialEq, Eq)]
pub struct CloseFd {
    /// The token that becomes the deferred work.
    pub closer: DeferredFdCloser,
    /// The descriptor to close.
    pub fd: u32,
    /// How far the close has come.
    pub phase: ClosePhase,
}

/// Deferred work that the kernel has queued: what is left of a deferred close
/// once [`DeferredFdCloser::close_fd`] has returned.
#[derive(Debug, PartialEq, Eq)]
pub struct ScheduledClose {
    file: usize,
}

/// How a deferred close ended.
#[derive(Debug, PartialEq, Eq)]
pub struct Closed {
    /// What `close_fd` returns.
    pub result: Result<(), DeferredFdCloseError>,
    /// The work that the kernel has queued and will run; `None` where nothing
    /// was queued and the token is gone.
    pub work: Option<ScheduledClose>,
}

/// Whether a task with these flags is a kernel thread.
pub open spec fn is_kthread(task_flags: u32) -> bool {
    task_flags & PF_KTHREAD != 0
}

impl ScheduledClose {
    /// The address of the file whose reference the work holds, or 0 if it
    /// holds none.
    pub closed spec fn file(&self) -> usize {
        self.file
    }

    /// The queued work that holds a reference to `file`, or none if `file` is
    /// 0.
    pub closed spec fn carrying(file: usize) -> ScheduledClose {
        ScheduledClose { file }
    }

    /// Queued work is known by the file it holds.
    pub proof fn lemma_carrying(self)
        ensures
            self == Self::carrying(self.file()),
            forall|file: usize| #[trigger] Self::carrying(file).file() == file,
    {
    }

    /// The state of the token.
    pub open spec fn spec_state(&self) -> CloserState {
        if self.file() == 0 {
            CloserState::Scheduled
        } else {
            CloserState::Filled(self.file())
        }
    }

    /// The request that running the work makes, if any.
    pub open spec fn release_request(&self) -> Option<Request> {
        if self.file() == 0 {
            None
        } else {
            Some(Request::Decrement { kind: ObjectKind::File, object: self.file() })
        }
    }

    /// The state of the token: `Scheduled` or `Filled`.
    #[verifier::when_used_as_spec(spec_state)]
    pub fn state(&self) -> (state: CloserState)
        ensures
            state == self.spec_state(),
    {
        if self.file == 0 {
            CloserState::Scheduled
        } else {
            CloserState::Filled(self.file)
        }
    }
}

impl Closed {
    /// The state the token is left in.
    pub open spec fn spec_state(&self) -> CloserState {
        match self.work {
            Some(work) => work.spec_state(),
            None => CloserState::Executed,
        }
    }

    /// The state the token is left in: that of the queued work, or
    /// `Executed` where nothing was queued and the token is gone.
    #[verifier::when_used_as_spec(spec_state)]
    pub fn state(&self) -> (state: CloserState)
        ensures
            state == self.spec_state(),
    {
        match &self.work {
            Some(work) => work.state(),
            None => CloserState::Executed,
        }
    }

    /// The close that failed with `error` before anything was queued.
    pub open spec fn unscheduled(error: DeferredFdCloseError) -> Closed {
        Closed { result: Err(error), work: None }
    }

    /// The close that found nothing open at the descriptor: the work is
    /// queued and holds no file.
    pub open spec fn bad_fd() -> Closed {
        Closed {
            result: Err(DeferredFdCloseError::BadFd),
            work: Some(ScheduledClose::carrying(0)),
        }
    }

    /// The close that took `file` out of its slot: the work is queued and
    /// holds one reference to `file`.
    pub open spec fn closed(file: usize) -> Closed {
        Closed { result: Ok(()), work: Some(ScheduledClose::carrying(file)) }
    }
}

impl DeferredFdCloser {
    /// The closer whose token is `Empty`.
    pub closed spec fn empty() -> DeferredFdCloser {
        DeferredFdCloser { token: () }
    }

    /// Makes a closer; its token is `Empty`.
    pub fn new() -> (closer: DeferredFdCloser)
        ensures
            closer == DeferredFdCloser::empty(),
    {
        DeferredFdCloser { token: () }
    }

    /// Starts closing descriptor `fd` of the current task.
    ///
    /// The work is queued before the descriptor is touched, because queueing
    /// can fail and closing cannot be taken back. The steps, each taken only
    /// when the one before is answered:
    /// 1. Read the task's flags. A kernel thread never returns to user
    ///    space: the close ends with `TaskWorkUnavailable`.
    /// 2. Queue the work. If the kernel refuses, the token is destroyed and
    ///    the close ends with `TaskWorkUnavailable`. The descriptor has not
    ///    been touched.
    /// 3. Take the file out of its slot. If nothing is open there, the close
    ///    ends with `BadFd`; the work stays queued, holds no file and does
    ///    nothing when it runs.
    /// 4. Take one more reference to the file.
    /// 5. Close the file, which drops the reference that the slot held. The
    ///    slot can be reserved again from step 3 on.
    /// 6. Record the file in the token. The close ends with `Ok`; the queued
    ///    work holds the reference of step 4.
    pub fn close_fd(self, fd: u32) -> (step: Step<CloseFd, Closed>)
        ensures
            step == CloseFd::begin(self, fd),
    {
        Step::Call(CloseFd { closer: self, fd, phase: ClosePhase::Probing })
    }

    /// Runs queued work, as the kernel does when the task returns to user
    /// space: the returned request releases the reference that the work
    /// holds. Work that holds none asks for nothing. Either way the token is
    /// used up.
    pub fn do_close_fd(work: ScheduledClose) -> (request: Option<Request>)
        ensures
            request == work.release_request(),
    {
        if work.file != 0 {
            Some(Request::Decrement { kind: ObjectKind::File, object: work.file })
        } else {
            None
        }
    }
}

impl CloseFd {
    /// Whether the close can have come about from
    /// [`DeferredFdCloser::close_fd`]: the file it has taken out of the slot,
    /// if any, has an address.
    pub open spec fn well_formed(self) -> bool {
        match self.phase {
            ClosePhase::Acquiring(file) | ClosePhase::Closing(file) => file != 0,
            _ => true,
        }
    }

    /// The state of the token while the close is under way.
    pub open spec fn spec_state(&self) -> CloserState {
        match self.phase {
            ClosePhase::Probing | ClosePhase::Scheduling => CloserState::Empty,
            _ => CloserState::Scheduled,
        }
    }

    /// The state of the token while the close is under way: `Empty` until
    /// the kernel has queued the work, `Scheduled` from then on.
    #[verifier::when_used_as_spec(spec_state)]
    pub fn state(&self) -> (state: CloserState)
        ensures
            state == self.spec_state(),
    {
        match self.phase {
            ClosePhase::Probing | ClosePhase::Scheduling => CloserState::Empty,
            _ => CloserState::Scheduled,
        }
    }

    /// The close, moved on to `phase`.
    pub open spec fn at_phase(self, phase: ClosePhase) -> Step<CloseFd, Closed> {
        Step::Call(CloseFd { phase, ..self })
    }

    /// The first step of closing `fd`.
    pub open spec fn begin(closer: DeferredFdCloser, fd: u32) -> Step<CloseFd, Closed> {
        Step::Call(CloseFd { closer, fd, phase: ClosePhase::Probing })
    }

    fn proceed(self, phase: ClosePhase) -> (step: Step<CloseFd, Closed>)
        ensures
            step == self.at_phase(phase),
    {
        Step::Call(CloseFd { closer: self.closer, fd: self.fd, phase })
    }
}

impl Machine for CloseFd {
    type Output = Closed;

    open spec fn pending(self) -> Request {
        match self.phase {
            ClosePhase::Probing => Request::ReadTaskFlags,
            ClosePhase::Scheduling => Request::Schedule,
            ClosePhase::Detaching => Request::Detach { fd: self.fd },
            ClosePhase::Acquiring(file) => Request::Increment {
                kind: ObjectKind::File,
                object: file,
            },
            ClosePhase::Closing(file) => Request::CloseUnderlying { file },
        }
    }

    open spec fn next(self, reply: Reply) -> Step<CloseFd, Closed> {
        match (self.phase, reply) {
            (ClosePhase::Probing, Reply::Word(task_flags)) => if is_kthread(task_flags) {
                Step::Done(Closed::unscheduled(DeferredFdCloseError::TaskWorkUnavailable))
            } else {
                self.at_phase(ClosePhase::Scheduling)
            },
            (ClosePhase::Scheduling, Reply::Status(status)) => if status != 0 {
                Step::Done(Closed::unscheduled(DeferredFdCloseError::TaskWorkUnavailable))
            } else {
                self.at_phase(ClosePhase::Detaching)
            },
            (ClosePhase::Detaching, Reply::Reference(file)) => if file == 0 {
                Step::Done(Closed::bad_fd())
            } else {
                self.at_phase(ClosePhase::Acquiring(file))
            },
            (ClosePhase::Acquiring(file), Reply::Done) => self.at_phase(ClosePhase::Closing(file)),
            (ClosePhase::Closing(file), Reply::Done) => Step::Done(Closed::closed(file)),
            _ => Step::Call(self),
        }
    }

    open spec fn budget(self) -> nat {
        match self.phase {
            ClosePhase::Probing => 5,
            ClosePhase::Scheduling => 4,
            ClosePhase::Detaching => 3,
            ClosePhase::Acquiring(_) => 2,
            ClosePhase::Closing(_) => 1,
        }
    }

    fn request(&self) -> (request: Request) {
        match self.phase {
            ClosePhase::Probing => Request::ReadTaskFlags,
            ClosePhase::Scheduling => Request::Schedule,
            ClosePhase::Detaching => Request::Detach { fd: self.fd },
            ClosePhase::Acquiring(file) => Request::Increment {
                kind: ObjectKind::File,
                object: file,
            },
            ClosePhase::Closing(file) => Request::CloseUnderlying { file },
        }
    }

    /// Moves the close on as [`DeferredFdCloser::close_fd`] lays out.
    fn step(self, reply: Reply) -> (step: Step<CloseFd, Closed>) {
        match (self.phase, reply) {
            (ClosePhase::Probing, Reply::Word(task_flags)) => {
                if task_flags & PF_KTHREAD != 0 {
                    Step::Done(
                        Closed {
                            result: Err(DeferredFdCloseError::TaskWorkUnavailable),
                            work: None,
                        },
                    )
                } else {
                    self.proceed(ClosePhase::Scheduling)
                }
            },
            (ClosePhase::Scheduling, Reply::Status(status)) => {
                if status != 0 {
                    Step::Done(
                        Closed {
                            result: Err(DeferredFdCloseError::TaskWorkUnavailable),
                            work: None,
                        },
                    )
                } else {
                    self.proceed(ClosePhase::Detaching)
                }
            },
            (ClosePhase::Detaching, Reply::Reference(file)) => {
                if file == 0 {
                    Step::Done(
                        Closed {
                            result: Err(DeferredFdCloseError::BadFd),
                            work: Some(ScheduledClose { file: 0 }),
                        },
                    )
                } else {
                    self.proceed(ClosePhase::Acquiring(file))
                }
            },
            (ClosePhase::Acquiring(file), Reply::Done) => self.proceed(ClosePhase::Closing(file)),
            (ClosePhase::Closing(file), Reply::Done) => Step::Done(
                Closed { result: Ok(()), work: Some(ScheduledClose { file }) },
            ),
            _ => Step::Call(self),
        }
    }

    proof fn lemma_no_answer(self, reply: Reply) {
    }

    proof fn lemma_answer(self, reply: Reply) {
    }
}

} // verus!
