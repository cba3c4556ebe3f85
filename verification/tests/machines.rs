//! Each operation, step by step, with the replies written out by hand.

use kernel::boundary::{Machine, ObjectKind, Reply, Request, Step};
use kernel::cred::{Credential, Kuid};
use kernel::file::{
    BadFdError, CloseFd, ClosePhase, Closed, CloserState, DeferredFdCloseError, DeferredFdCloser,
    Fget, File, FileDescriptorReservation, GetUnusedFd, PF_KTHREAD,
};
use kernel::sync::poll::{
    PollCondVar, PollTable, RegisterPhase, RegisterWait, Teardown, TeardownPhase,
};
use kernel::types::{ARef, Acquire, AlwaysRefCounted};

fn machine_of<M: Machine>(step: Step<M, M::Output>) -> (M, Request) {
    match step {
        Step::Call(machine) => {
            let request = machine.request();
            (machine, request)
        }
        Step::Done(_) => panic!("the operation has ended"),
    }
}

fn result_of<M: Machine>(step: Step<M, M::Output>) -> M::Output {
    match step {
        Step::Done(result) => result,
        Step::Call(machine) => panic!("the operation still asks for {:?}", machine.request()),
    }
}

#[test]
fn fget_asks_for_the_descriptor() {
    let (machine, request) = machine_of(File::fget(3));
    assert_eq!(machine, Fget { fd: 3 });
    assert_eq!(request, Request::AcquireById { fd: 3 });
}

#[test]
fn fget_of_a_null_reference_is_bad_fd() {
    let (machine, _) = machine_of(File::fget(3));
    assert_eq!(result_of(machine.step(Reply::Reference(0))), Err(BadFdError));
}

#[test]
fn fget_wraps_the_file_it_is_given() {
    let (machine, _) = machine_of(File::fget(3));
    let handle = result_of(machine.step(Reply::Reference(0x1000))).unwrap();
    assert_eq!(handle.as_ref().as_ptr(), 0x1000);
    assert_eq!(*handle.as_ref(), File::from_ptr(0x1000));
}

#[test]
fn fget_stands_on_a_reply_that_is_no_reference() {
    for reply in [Reply::Done, Reply::Status(0), Reply::Word(7)] {
        let (machine, _) = machine_of(File::fget(9));
        let (machine, request) = machine_of(machine.step(reply));
        assert_eq!(machine, Fget { fd: 9 });
        assert_eq!(request, Request::AcquireById { fd: 9 });
    }
}

#[test]
fn file_view_names_its_address() {
    let file = File::from_ptr(0x2000);
    assert_eq!(file.as_ptr(), 0x2000);
    assert_eq!(file.flags(), Request::ReadFlags { file: 0x2000 });
    assert_eq!(file.cred(), Request::ReadCredential { file: 0x2000 });
    assert_eq!(
        file.inc_ref(),
        Request::Increment { kind: ObjectKind::File, object: 0x2000 }
    );
    assert_eq!(
        file.dec_ref(),
        Request::Decrement { kind: ObjectKind::File, object: 0x2000 }
    );
}

#[test]
fn credential_view_names_its_address() {
    let cred = Credential::from_ptr(0x3000);
    assert_eq!(cred.euid(), Request::ReadEuid { cred: 0x3000 });
    assert_eq!(cred.get_secid(), Request::ReadSecid { cred: 0x3000 });
    assert_eq!(
        cred.inc_ref(),
        Request::Increment { kind: ObjectKind::Credential, object: 0x3000 }
    );
    assert_eq!(
        cred.dec_ref(),
        Request::Decrement { kind: ObjectKind::Credential, object: 0x3000 }
    );
}

#[test]
fn kuid_keeps_the_raw_id() {
    assert_eq!(Kuid::from_raw(1000).into_raw(), 1000);
    assert_eq!(Kuid::from_raw(0), Kuid::from_raw(0));
    assert_ne!(Kuid::from_raw(0), Kuid::from_raw(1));
}

#[test]
fn from_raw_asks_nothing_and_release_drops_one() {
    let handle = ARef::from_raw(File::from_ptr(0x4000));
    assert_eq!(handle.as_ref().as_ptr(), 0x4000);
    assert_eq!(
        handle.release(),
        Request::Decrement { kind: ObjectKind::File, object: 0x4000 }
    );
}

#[test]
fn into_raw_gives_the_view_back() {
    let handle = ARef::from_raw(Credential::from_ptr(0x4100));
    assert_eq!(handle.into_raw(), Credential::from_ptr(0x4100));
}

#[test]
fn clone_ref_yields_the_handle_once_the_increment_is_answered() {
    let handle = ARef::from_raw(File::from_ptr(0x5000));
    let (machine, request) = machine_of(handle.clone_ref());
    assert_eq!(machine, Acquire { obj: File::from_ptr(0x5000) });
    assert_eq!(request, Request::Increment { kind: ObjectKind::File, object: 0x5000 });
    let (machine, request) = machine_of(machine.step(Reply::Word(1)));
    assert_eq!(request, Request::Increment { kind: ObjectKind::File, object: 0x5000 });
    let second = result_of(machine.step(Reply::Done));
    assert_eq!(second, handle);
}

#[test]
fn from_ref_counts_a_reference_for_a_credential() {
    let cred = Credential::from_ptr(0x5100);
    let (machine, request) = machine_of(ARef::from_ref(&cred));
    assert_eq!(
        request,
        Request::Increment { kind: ObjectKind::Credential, object: 0x5100 }
    );
    let handle = result_of(machine.step(Reply::Done));
    assert_eq!(
        handle.release(),
        Request::Decrement { kind: ObjectKind::Credential, object: 0x5100 }
    );
}

#[test]
fn reservation_asks_with_the_flags() {
    let (machine, request) = machine_of(FileDescriptorReservation::get_unused_fd_flags(0o2000000));
    assert_eq!(machine, GetUnusedFd { flags: 0o2000000 });
    assert_eq!(request, Request::ReserveSlot { flags: 0o2000000 });
}

#[test]
fn reservation_holds_the_slot_it_is_given() {
    let (machine, _) = machine_of(FileDescriptorReservation::get_unused_fd_flags(0));
    let reservation = result_of(machine.step(Reply::Status(7))).unwrap();
    assert_eq!(reservation.reserved_fd(), 7);
    let (machine, _) = machine_of(FileDescriptorReservation::get_unused_fd_flags(0));
    let reservation = result_of(machine.step(Reply::Status(0))).unwrap();
    assert_eq!(reservation.reserved_fd(), 0);
    let (machine, _) = machine_of(FileDescriptorReservation::get_unused_fd_flags(0));
    let reservation = result_of(machine.step(Reply::Status(i32::MAX))).unwrap();
    assert_eq!(reservation.reserved_fd(), 2147483647);
}

#[test]
fn reservation_fails_with_the_errno_of_the_kernel() {
    let (machine, _) = machine_of(FileDescriptorReservation::get_unused_fd_flags(0));
    let error = result_of(machine.step(Reply::Status(-24))).unwrap_err();
    assert_eq!(error.to_errno(), -24);
    let (machine, _) = machine_of(FileDescriptorReservation::get_unused_fd_flags(0));
    let error = result_of(machine.step(Reply::Status(-1))).unwrap_err();
    assert_eq!(error.to_errno(), -1);
    let (machine, _) = machine_of(FileDescriptorReservation::get_unused_fd_flags(0));
    let error = result_of(machine.step(Reply::Status(-4095))).unwrap_err();
    assert_eq!(error.to_errno(), -4095);
}

#[test]
fn reservation_takes_a_number_that_is_no_errno_for_einval() {
    let (machine, _) = machine_of(FileDescriptorReservation::get_unused_fd_flags(0));
    let error = result_of(machine.step(Reply::Status(-4096))).unwrap_err();
    assert_eq!(error.to_errno(), -22);
    let (machine, _) = machine_of(FileDescriptorReservation::get_unused_fd_flags(0));
    let error = result_of(machine.step(Reply::Status(i32::MIN))).unwrap_err();
    assert_eq!(error.to_errno(), -22);
}

#[test]
fn reservation_stands_on_a_reply_that_is_no_status() {
    let (machine, _) = machine_of(FileDescriptorReservation::get_unused_fd_flags(5));
    let (machine, request) = machine_of(machine.step(Reply::Reference(3)));
    assert_eq!(machine, GetUnusedFd { flags: 5 });
    assert_eq!(request, Request::ReserveSlot { flags: 5 });
}

fn reservation_of(fd: i32) -> FileDescriptorReservation {
    let (machine, _) = machine_of(FileDescriptorReservation::get_unused_fd_flags(0));
    result_of(machine.step(Reply::Status(fd))).unwrap()
}

#[test]
fn fd_install_binds_the_file_to_the_slot() {
    let file = ARef::from_raw(File::from_ptr(0x6000));
    assert_eq!(reservation_of(4).fd_install(file), Request::Bind { fd: 4, file: 0x6000 });
}

#[test]
fn cancel_releases_the_slot() {
    assert_eq!(reservation_of(4).cancel(), Request::ReleaseSlot { fd: 4 });
}

fn closing(fd: u32, phase: ClosePhase) -> CloseFd {
    CloseFd { closer: DeferredFdCloser::new(), fd, phase }
}

#[test]
fn close_fd_reads_the_task_flags_first() {
    let (machine, request) = machine_of(DeferredFdCloser::new().close_fd(5));
    assert_eq!(machine, closing(5, ClosePhase::Probing));
    assert_eq!(request, Request::ReadTaskFlags);
}

#[test]
fn close_fd_in_a_kernel_thread_is_unavailable() {
    let (machine, _) = machine_of(DeferredFdCloser::new().close_fd(5));
    let closed = result_of(machine.step(Reply::Word(PF_KTHREAD)));
    assert_eq!(
        closed,
        Closed { result: Err(DeferredFdCloseError::TaskWorkUnavailable), work: None }
    );
    let (machine, _) = machine_of(DeferredFdCloser::new().close_fd(5));
    let closed = result_of(machine.step(Reply::Word(0xffff_ffff)));
    assert_eq!(closed.result, Err(DeferredFdCloseError::TaskWorkUnavailable));
    assert_eq!(closed.work, None);
}

#[test]
fn close_fd_schedules_before_it_touches_the_descriptor() {
    let (machine, _) = machine_of(DeferredFdCloser::new().close_fd(5));
    let (machine, request) = machine_of(machine.step(Reply::Word(0)));
    assert_eq!(machine, closing(5, ClosePhase::Scheduling));
    assert_eq!(request, Request::Schedule);
    let (machine, _) = machine_of(DeferredFdCloser::new().close_fd(5));
    let (_, request) = machine_of(machine.step(Reply::Word(!PF_KTHREAD)));
    assert_eq!(request, Request::Schedule);
}

#[test]
fn close_fd_without_task_work_is_unavailable() {
    for status in [-3, 1, i32::MIN, i32::MAX] {
        let closed = result_of(closing(5, ClosePhase::Scheduling).step(Reply::Status(status)));
        assert_eq!(
            closed,
            Closed { result: Err(DeferredFdCloseError::TaskWorkUnavailable), work: None }
        );
    }
}

#[test]
fn close_fd_detaches_once_the_work_is_queued() {
    let (machine, request) =
        machine_of(closing(5, ClosePhase::Scheduling).step(Reply::Status(0)));
    assert_eq!(machine, closing(5, ClosePhase::Detaching));
    assert_eq!(request, Request::Detach { fd: 5 });
}

#[test]
fn close_fd_of_an_empty_slot_is_bad_fd_and_leaves_idle_work() {
    let closed = result_of(closing(5, ClosePhase::Detaching).step(Reply::Reference(0)));
    assert_eq!(closed.result, Err(DeferredFdCloseError::BadFd));
    let work = closed.work.unwrap();
    assert_eq!(work.state(), CloserState::Scheduled);
    assert_eq!(DeferredFdCloser::do_close_fd(work), None);
}

#[test]
fn close_fd_takes_a_reference_and_then_closes() {
    let (machine, request) =
        machine_of(closing(5, ClosePhase::Detaching).step(Reply::Reference(0x7000)));
    assert_eq!(machine, closing(5, ClosePhase::Acquiring(0x7000)));
    assert_eq!(request, Request::Increment { kind: ObjectKind::File, object: 0x7000 });
    let (machine, request) = machine_of(machine.step(Reply::Done));
    assert_eq!(machine, closing(5, ClosePhase::Closing(0x7000)));
    assert_eq!(request, Request::CloseUnderlying { file: 0x7000 });
    let closed = result_of(machine.step(Reply::Done));
    assert_eq!(closed.result, Ok(()));
    let work = closed.work.unwrap();
    assert_eq!(work.state(), CloserState::Filled(0x7000));
    assert_eq!(
        DeferredFdCloser::do_close_fd(work),
        Some(Request::Decrement { kind: ObjectKind::File, object: 0x7000 })
    );
}

#[test]
fn the_token_is_scheduled_once_the_work_is_queued() {
    assert_eq!(closing(5, ClosePhase::Probing).state(), CloserState::Empty);
    assert_eq!(closing(5, ClosePhase::Scheduling).state(), CloserState::Empty);
    assert_eq!(closing(5, ClosePhase::Detaching).state(), CloserState::Scheduled);
    assert_eq!(closing(5, ClosePhase::Acquiring(0x7000)).state(), CloserState::Scheduled);
    assert_eq!(closing(5, ClosePhase::Closing(0x7000)).state(), CloserState::Scheduled);
}

#[test]
fn a_close_without_work_leaves_the_token_executed() {
    let closed = result_of(closing(5, ClosePhase::Scheduling).step(Reply::Status(-3)));
    assert_eq!(closed.state(), CloserState::Executed);
    let closed = result_of(closing(5, ClosePhase::Detaching).step(Reply::Reference(0)));
    assert_eq!(closed.state(), CloserState::Scheduled);
    let closed = result_of(closing(5, ClosePhase::Closing(0x7000)).step(Reply::Done));
    assert_eq!(closed.state(), CloserState::Filled(0x7000));
}

#[test]
fn handles_can_be_shared_between_threads() {
    fn shareable<T: Send + Sync>() {}
    shareable::<File>();
    shareable::<Credential>();
    shareable::<ARef<File>>();
    shareable::<ARef<Credential>>();
    shareable::<DeferredFdCloser>();
}

#[test]
fn close_fd_stands_on_a_reply_that_is_no_answer() {
    let cases = [
        (ClosePhase::Probing, Reply::Status(0), Request::ReadTaskFlags),
        (ClosePhase::Probing, Reply::Done, Request::ReadTaskFlags),
        (ClosePhase::Scheduling, Reply::Word(0), Request::Schedule),
        (ClosePhase::Scheduling, Reply::Reference(0), Request::Schedule),
        (ClosePhase::Detaching, Reply::Status(0), Request::Detach { fd: 8 }),
        (ClosePhase::Detaching, Reply::Done, Request::Detach { fd: 8 }),
        (
            ClosePhase::Acquiring(0x7100),
            Reply::Reference(0x7100),
            Request::Increment { kind: ObjectKind::File, object: 0x7100 },
        ),
        (
            ClosePhase::Closing(0x7100),
            Reply::Status(0),
            Request::CloseUnderlying { file: 0x7100 },
        ),
    ];
    for (phase, reply, pending) in cases {
        let (machine, request) = machine_of(closing(8, phase).step(reply));
        assert_eq!(machine, closing(8, phase));
        assert_eq!(request, pending);
    }
}

#[test]
fn register_wait_asks_for_the_callback_first() {
    let mut table = PollTable::from_ptr(0x8000);
    assert_eq!(table.get_qproc(), Request::ReadQueueProc { table: 0x8000 });
    let file = File::from_ptr(0x8100);
    let cv = PollCondVar::new(0x8200);
    assert_eq!(cv.wait_list(), 0x8200);
    let (machine, request) = machine_of(table.register_wait(&file, &cv));
    assert_eq!(
        machine,
        RegisterWait {
            table: 0x8000,
            file: 0x8100,
            wait_list: 0x8200,
            phase: RegisterPhase::Reading
        }
    );
    assert_eq!(request, Request::ReadQueueProc { table: 0x8000 });
    assert_eq!(table, PollTable::from_ptr(0x8000));
}

fn registering(phase: RegisterPhase) -> RegisterWait {
    RegisterWait { table: 0x8000, file: 0x8100, wait_list: 0x8200, phase }
}

#[test]
fn register_wait_without_a_callback_registers_nothing() {
    assert_eq!(
        registering(RegisterPhase::Reading).step(Reply::Reference(0)),
        Step::Done(())
    );
}

#[test]
fn register_wait_calls_the_callback_on_file_list_and_table() {
    let (machine, request) =
        machine_of(registering(RegisterPhase::Reading).step(Reply::Reference(0x8300)));
    assert_eq!(machine, registering(RegisterPhase::Registering(0x8300)));
    assert_eq!(
        request,
        Request::Register { callback: 0x8300, file: 0x8100, wait_list: 0x8200, table: 0x8000 }
    );
    assert_eq!(machine.step(Reply::Done), Step::Done(()));
}

#[test]
fn register_wait_stands_on_a_reply_that_is_no_answer() {
    let (machine, request) =
        machine_of(registering(RegisterPhase::Reading).step(Reply::Word(1)));
    assert_eq!(machine, registering(RegisterPhase::Reading));
    assert_eq!(request, Request::ReadQueueProc { table: 0x8000 });
    let (machine, request) =
        machine_of(registering(RegisterPhase::Registering(0x8300)).step(Reply::Status(0)));
    assert_eq!(machine, registering(RegisterPhase::Registering(0x8300)));
    assert_eq!(
        request,
        Request::Register { callback: 0x8300, file: 0x8100, wait_list: 0x8200, table: 0x8000 }
    );
}

#[test]
fn teardown_evicts_and_only_then_synchronizes() {
    let (machine, request) = machine_of(PollCondVar::new(0x9000).teardown());
    assert_eq!(machine, Teardown { wait_list: 0x9000, phase: TeardownPhase::Evicting });
    assert_eq!(request, Request::Evict { wait_list: 0x9000 });
    let (machine, request) = machine_of(machine.step(Reply::Done));
    assert_eq!(machine, Teardown { wait_list: 0x9000, phase: TeardownPhase::Synchronizing });
    assert_eq!(request, Request::Synchronize);
    assert_eq!(machine.step(Reply::Done), Step::Done(()));
}

#[test]
fn teardown_stands_on_a_reply_that_is_no_answer() {
    let (machine, _) = machine_of(PollCondVar::new(0x9000).teardown());
    let (machine, request) = machine_of(machine.step(Reply::Status(0)));
    assert_eq!(machine, Teardown { wait_list: 0x9000, phase: TeardownPhase::Evicting });
    assert_eq!(request, Request::Evict { wait_list: 0x9000 });
    let (machine, _) = machine_of(machine.step(Reply::Done));
    let (machine, request) = machine_of(machine.step(Reply::Word(0)));
    assert_eq!(machine, Teardown { wait_list: 0x9000, phase: TeardownPhase::Synchronizing });
    assert_eq!(request, Request::Synchronize);
}

#[test]
fn every_request_tells_its_answers_from_other_replies() {
    let replies = [Reply::Done, Reply::Status(0), Reply::Word(0), Reply::Reference(0)];
    let cases = [
        (Request::AcquireById { fd: 1 }, 3),
        (Request::Increment { kind: ObjectKind::File, object: 8 }, 0),
        (Request::Decrement { kind: ObjectKind::Credential, object: 8 }, 0),
        (Request::ReadCredential { file: 8 }, 3),
        (Request::ReadFlags { file: 8 }, 2),
        (Request::ReadEuid { cred: 8 }, 2),
        (Request::ReadSecid { cred: 8 }, 2),
        (Request::ReserveSlot { flags: 0 }, 1),
        (Request::Bind { fd: 1, file: 8 }, 0),
        (Request::ReleaseSlot { fd: 1 }, 0),
        (Request::Detach { fd: 1 }, 3),
        (Request::CloseUnderlying { file: 8 }, 0),
        (Request::ReadTaskFlags, 2),
        (Request::Schedule, 1),
        (Request::ReadQueueProc { table: 8 }, 3),
        (Request::Register { callback: 8, file: 8, wait_list: 8, table: 8 }, 0),
        (Request::Evict { wait_list: 8 }, 0),
        (Request::Synchronize, 0),
    ];
    for (request, answer) in cases {
        for (index, reply) in replies.iter().enumerate() {
            assert_eq!(request.is_answered_by(reply), index == answer, "{:?} {:?}", request, reply);
        }
    }
}
