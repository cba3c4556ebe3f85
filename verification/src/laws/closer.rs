//! The deferred close: what it asks of the kernel, and what it leaves behind.

use crate::boundary::{Machine, ObjectKind, Reply, Request, Step};
use crate::contract::{Event, Exchange, KernelState};
use crate::driver::drive;
use crate::file::{
    is_kthread, CloseFd, Closed, CloserState, DeferredFdCloseError, DeferredFdCloser,
    ScheduledClose,
};
use vstd::prelude::*;

verus! {

/// How far the token of a deferred close has come, as a number.
pub open spec fn rank(state: CloserState) -> int {
    match state {
        CloserState::Empty => 0,
        CloserState::Scheduled => 1,
        CloserState::Filled(_) => 2,
        CloserState::Executed => 3,
    }
}

/// The token of a deferred close only moves forward.
///
/// Whatever reply a close is handed, its token stays in its state or moves
/// on to the next: from `Empty` to `Scheduled` when the kernel has queued the
/// work, from `Scheduled` to `Filled` when the file is closed. The close ends
/// with no work left only while the token is `Empty`: once the work is
/// queued, it stays with the kernel. It ends with `Ok` exactly if the token
/// is `Filled`, and then with the file it took out of the slot.
pub proof fn lemma_token_moves_forward(machine: CloseFd, reply: Reply)
    requires
        machine.well_formed(),
    ensures
        forall|closer: DeferredFdCloser, fd: u32| #[trigger]
            CloseFd::begin(closer, fd) matches Step::Call(first) && first.well_formed()
                && first.state() == CloserState::Empty,
        match machine.next(reply) {
            Step::Call(next) => {
                &&& next.well_formed()
                &&& rank(machine.state()) <= rank(next.state()) <= rank(machine.state()) + 1
                &&& next.state() != machine.state() ==> machine.pending() == Request::Schedule
                    && reply == Reply::Status(0)
                &&& next.fd == machine.fd
            },
            Step::Done(closed) => rank(machine.state()) <= rank(closed.state()) && match closed.work {
                None => {
                    &&& machine.state() == CloserState::Empty
                    &&& closed.state() == CloserState::Executed
                    &&& closed.result == Err::<(), _>(DeferredFdCloseError::TaskWorkUnavailable)
                },
                Some(work) => {
                    &&& machine.state() == CloserState::Scheduled
                    &&& work.state() is Scheduled || work.state() is Filled
                    &&& work.state() is Filled <==> closed.result is Ok
                    &&& work.state() is Scheduled <==> closed.result == Err::<(), _>(
                        DeferredFdCloseError::BadFd,
                    )
                    &&& work.state() matches CloserState::Filled(file) ==> file != 0
                        && machine.pending() == Request::CloseUnderlying { file }
                },
            },
        },
{
    ScheduledClose::carrying(0).lemma_carrying();
}

/// Whether the kernel let the work of a deferred close be queued: the task is
/// no kernel thread, and the second reply, the one to the scheduling, is a
/// zero status.
pub open spec fn scheduling_succeeded(k: KernelState, replies: Seq<Reply>) -> bool {
    !is_kthread(k.task_flags) && replies.len() >= 2 && replies[1] == Reply::Status(0)
}

/// How a deferred close runs, whatever the kernel answers.
///
/// The driver hands the close the kernel's replies until it is done. Then
/// every request of the close was one the kernel permits, and the close went
/// one of four ways, with nothing asked of the kernel beyond what is listed:
/// - the task is a kernel thread: the flags were read;
/// - the kernel refused the work: the flags were read and the scheduling
///   tried;
/// - nothing is open at the descriptor: the work was queued and the slot
///   looked at;
/// - a file is bound to the descriptor: the work was queued, the file taken
///   out of the slot, one reference added and the file closed, in this order.
pub proof fn lemma_close_cases(k: KernelState, closer: DeferredFdCloser, fd: u32, replies: Seq<Reply>)
    requires
        k.well_formed(),
        drive(CloseFd::begin(closer, fd), replies).1 is Done,
        k.answers(drive(CloseFd::begin(closer, fd), replies).0),
    ensures
        k.admits(drive(CloseFd::begin(closer, fd), replies).0),
        k.run(drive(CloseFd::begin(closer, fd), replies).0).well_formed(),
        ({
            let (trace, end) = drive(CloseFd::begin(closer, fd), replies);
            let closed = end->Done_0;
            let probe = Exchange {
                request: Request::ReadTaskFlags,
                reply: Reply::Word(k.task_flags),
            };
            if is_kthread(k.task_flags) {
                &&& trace == seq![probe]
                &&& closed == Closed::unscheduled(DeferredFdCloseError::TaskWorkUnavailable)
            } else {
                &&& replies.len() >= 2
                &&& replies[1] is Status
                &&& if !scheduling_succeeded(k, replies) {
                    &&& trace == seq![probe, Exchange { request: Request::Schedule, reply: replies[1] }]
                    &&& closed == Closed::unscheduled(DeferredFdCloseError::TaskWorkUnavailable)
                } else {
                    let schedule = Exchange { request: Request::Schedule, reply: Reply::Status(0) };
                    &&& replies.len() >= 3
                    &&& if !(k.slots.contains_key(fd) && k.slots[fd] is Bound) {
                        &&& trace == seq![
                            probe,
                            schedule,
                            Exchange { request: Request::Detach { fd }, reply: Reply::Reference(0) },
                        ]
                        &&& closed == Closed::bad_fd()
                    } else {
                        let file = k.slots[fd]->Bound_0;
                        &&& file != 0
                        &&& trace == seq![
                            probe,
                            schedule,
                            Exchange {
                                request: Request::Detach { fd },
                                reply: Reply::Reference(file),
                            },
                            Exchange {
                                request: Request::Increment {
                                    kind: ObjectKind::File,
                                    object: file,
                                },
                                reply: Reply::Done,
                            },
                            Exchange {
                                request: Request::CloseUnderlying { file },
                                reply: Reply::Done,
                            },
                        ]
                        &&& closed == Closed::closed(file)
                    }
                }
            }
        }),
{
    let start = CloseFd::begin(closer, fd);
    let (trace, end) = drive(start, replies);
    let m0 = start->Call_0;
    assert(replies.len() >= 1);
    let r0 = replies[0];
    let rest0 = replies.drop_first();
    let x0 = Exchange { request: Request::ReadTaskFlags, reply: r0 };
    let t1 = drive(m0.next(r0), rest0);
    assert(trace == seq![x0] + t1.0);
    k.lemma_first(x0, t1.0);
    let k1 = k.after(x0.request, x0.reply);
    k.lemma_after_well_formed(x0.request, x0.reply);
    assert(k1 == k);
    if is_kthread(k.task_flags) {
        assert(t1.0 =~= Seq::<Exchange>::empty());
        assert(trace =~= seq![x0]);
    } else {
        let m1 = m0.next(r0)->Call_0;
        assert(rest0.len() >= 1);
        let r1 = rest0[0];
        assert(r1 == replies[1]);
        let rest1 = rest0.drop_first();
        let x1 = Exchange { request: Request::Schedule, reply: r1 };
        let t2 = drive(m1.next(r1), rest1);
        assert(t1.0 == seq![x1] + t2.0);
        k1.lemma_first(x1, t2.0);
        let k2 = k1.after(x1.request, x1.reply);
        k1.lemma_after_well_formed(x1.request, x1.reply);
        if r1 != Reply::Status(0) {
            assert(t2.0 =~= Seq::<Exchange>::empty());
            assert(trace =~= seq![x0, x1]);
        } else {
            let m2 = m1.next(r1)->Call_0;
            assert(rest1.len() >= 1);
            let r2 = rest1[0];
            assert(r2 == replies[2]);
            let rest2 = rest1.drop_first();
            let x2 = Exchange { request: Request::Detach { fd }, reply: r2 };
            let t3 = drive(m2.next(r2), rest2);
            assert(t2.0 == seq![x2] + t3.0);
            k2.lemma_first(x2, t3.0);
            let k3 = k2.after(x2.request, x2.reply);
            k2.lemma_after_well_formed(x2.request, x2.reply);
            if !(k.slots.contains_key(fd) && k.slots[fd] is Bound) {
                assert(t3.0 =~= Seq::<Exchange>::empty());
                assert(trace =~= seq![x0, x1, x2]);
            } else {
                let file = k.slots[fd]->Bound_0;
                assert(r2 == Reply::Reference(file));
                k.lemma_bound_is_live(fd, file);
                k2.lemma_binders_after(x2.request, x2.reply, file);
                let m3 = m2.next(r2)->Call_0;
                assert(rest2.len() >= 1);
                let r3 = rest2[0];
                let rest3 = rest2.drop_first();
                let x3 = Exchange {
                    request: Request::Increment {
                        kind: ObjectKind::File,
                        object: file,
                    },
                    reply: r3,
                };
                let t4 = drive(m3.next(r3), rest3);
                assert(t3.0 == seq![x3] + t4.0);
                k3.lemma_first(x3, t4.0);
                let k4 = k3.after(x3.request, x3.reply);
                k3.lemma_after_well_formed(x3.request, x3.reply);
                k3.lemma_binders_after(x3.request, x3.reply, file);
                assert(k.claimed(file) <= k.references(file));
                assert(k4.references(file) == k.references(file) + 1);
                assert(k4.owed(file) == k.owed(file) - 1);
                assert(k4.borrows == k.borrows);
                assert(k4.spare(file));
                let m4 = m3.next(r3)->Call_0;
                assert(rest3.len() >= 1);
                let r4 = rest3[0];
                let rest4 = rest3.drop_first();
                let x4 = Exchange { request: Request::CloseUnderlying { file }, reply: r4 };
                let t5 = drive(m4.next(r4), rest4);
                assert(t4.0 == seq![x4] + t5.0);
                k4.lemma_first(x4, t5.0);
                k4.lemma_after_well_formed(x4.request, x4.reply);
                assert(t5.0 =~= Seq::<Exchange>::empty());
                assert(trace =~= seq![x0, x1, x2, x3, x4]);
            }
        }
    }
}

/// A descriptor that was closed can be reserved again at once.
///
/// When a deferred close ends with `Ok`, a file was bound to the descriptor.
/// The slot is unused from then on, whether or not the queued work has run
/// yet, and the kernel may hand it out to the next reservation. Apart from
/// the slot and the queued work, the kernel is as it was: the file is alive
/// and has as many references as before, of which the one that was the
/// slot's is now recorded in the queued work. The handles to the file still
/// have theirs.
pub proof fn lemma_closed_descriptor_is_free(
    k: KernelState,
    closer: DeferredFdCloser,
    fd: u32,
    replies: Seq<Reply>,
    flags: u32,
)
    requires
        k.well_formed(),
        drive(CloseFd::begin(closer, fd), replies).1 matches Step::Done(closed)
            && closed.result is Ok,
        k.answers(drive(CloseFd::begin(closer, fd), replies).0),
    ensures
        ({
            let (trace, end) = drive(CloseFd::begin(closer, fd), replies);
            let closed = end->Done_0;
            let after_close = k.run(trace);
            &&& k.admits(trace)
            &&& closed.work matches Some(work)
            &&& work.state() == CloserState::Filled(work.file())
            &&& work.release_request() == Some(
                Request::Decrement { kind: ObjectKind::File, object: work.file() },
            )
            &&& k.bound_to(fd, work.file())
            &&& after_close == KernelState {
                slots: k.slots.remove(fd),
                pending: k.pending + 1,
                ..k
            }
            &&& after_close.well_formed()
            &&& after_close.unused(fd)
            &&& after_close.may_reply(Request::ReserveSlot { flags }, Reply::Status(fd as i32))
            &&& after_close.live(work.file())
            &&& after_close.owed(work.file()) == k.owed(work.file()) - 1
            &&& after_close.unclaimed(work.file()) >= k.unclaimed(work.file())
        }),
{
    lemma_close_cases(k, closer, fd, replies);
    let (trace, end) = drive(CloseFd::begin(closer, fd), replies);
    let closed = end->Done_0;
    let file = k.slots[fd]->Bound_0;
    ScheduledClose::carrying(file).lemma_carrying();
    ScheduledClose::carrying(0).lemma_carrying();
    assert(k.slots.contains_key(fd) && k.slots[fd] is Bound);
    assert(closed == Closed::closed(file));
    k.lemma_bound_is_live(fd, file);
    let probe = trace[0];
    let schedule = trace[1];
    let detach = trace[2];
    let acquire = trace[3];
    let close = trace[4];
    let k1 = k.after(probe.request, probe.reply);
    let k2 = k1.after(schedule.request, schedule.reply);
    let k3 = k2.after(detach.request, detach.reply);
    let k4 = k3.after(acquire.request, acquire.reply);
    let k5 = k4.after(close.request, close.reply);
    reveal_with_fuel(KernelState::run, 6);
    reveal_with_fuel(KernelState::admits, 6);
    assert(trace.drop_first() =~= seq![schedule, detach, acquire, close]);
    assert(trace.drop_first().drop_first() =~= seq![detach, acquire, close]);
    assert(trace.drop_first().drop_first().drop_first() =~= seq![acquire, close]);
    assert(trace.drop_first().drop_first().drop_first().drop_first() =~= seq![close]);
    assert(trace.drop_first().drop_first().drop_first().drop_first().drop_first()
        =~= Seq::<Exchange>::empty());
    assert(k.run(trace) == k5);
    k.lemma_after_well_formed(probe.request, probe.reply);
    k1.lemma_after_well_formed(schedule.request, schedule.reply);
    k2.lemma_after_well_formed(detach.request, detach.reply);
    k3.lemma_after_well_formed(acquire.request, acquire.reply);
    k4.lemma_after_well_formed(close.request, close.reply);
    k2.lemma_binders_after(detach.request, detach.reply, file);
    k3.lemma_binders_after(acquire.request, acquire.reply, file);
    k4.lemma_binders_after(close.request, close.reply, file);
    assert(k5.refcount =~= k.refcount);
}

/// The reference that a deferred close keeps is released at a safe point, and
/// not before.
///
/// Take a deferred close that ended with `Ok`, and let the kernel go on by
/// itself in any way it can: borrows end and begin, notifiers come and go.
/// All the while the file is alive and keeps its references, also where the
/// task had borrowed it through the closed descriptor. Once the task has no
/// borrow under way, as when it returns to user space, the request of the
/// queued work is one the kernel permits, and it leaves the file with exactly
/// one reference less than before the close: the one that was the slot's.
/// What was not claimed before the close is not claimed after the release.
pub proof fn lemma_deferred_release(
    k: KernelState,
    closer: DeferredFdCloser,
    fd: u32,
    replies: Seq<Reply>,
    events: Seq<Event>,
)
    requires
        k.well_formed(),
        drive(CloseFd::begin(closer, fd), replies).1 matches Step::Done(closed)
            && closed.result is Ok,
        k.answers(drive(CloseFd::begin(closer, fd), replies).0),
        k.run(drive(CloseFd::begin(closer, fd), replies).0).allows_all(events),
    ensures
        ({
            let (trace, end) = drive(CloseFd::begin(closer, fd), replies);
            let work = end->Done_0.work->Some_0;
            let release = Request::Decrement { kind: ObjectKind::File, object: work.file() };
            let later = k.run(trace).following_all(events);
            &&& work.release_request() == Some(release)
            &&& later.well_formed()
            &&& later.live(work.file())
            &&& later.references(work.file()) == k.references(work.file())
            &&& later.unclaimed(work.file()) >= k.unclaimed(work.file())
            &&& later.at_safe_point() ==> {
                &&& later.unclaimed(work.file()) == k.unclaimed(work.file()) + 1
                &&& later.permits(release)
                &&& later.after(release, Reply::Done).well_formed()
                &&& later.after(release, Reply::Done).references(work.file()) == k.references(
                    work.file(),
                ) - 1
                &&& later.after(release, Reply::Done).unclaimed(work.file()) == k.unclaimed(
                    work.file(),
                )
                &&& later.after(release, Reply::Done).unused(fd)
            }
        }),
{
    lemma_closed_descriptor_is_free(k, closer, fd, replies, 0);
    let (trace, end) = drive(CloseFd::begin(closer, fd), replies);
    let work = end->Done_0.work->Some_0;
    let file = work.file();
    let release = Request::Decrement { kind: ObjectKind::File, object: file };
    let after_close = k.run(trace);
    after_close.lemma_following_all_well_formed(events);
    let later = after_close.following_all(events);
    assert(later.binders(file) =~= after_close.binders(file));
    k.lemma_bound_is_live(fd, file);
    assert(k.claimed(file) <= k.references(file));
    if later.at_safe_point() {
        assert(!later.borrowed(file));
        later.lemma_after_well_formed(release, Reply::Done);
    }
}

/// A deferred close of a descriptor that is not open closes nothing.
///
/// If the work could be queued, the close ends with `BadFd`: the work stays
/// queued, holds no file, and asks nothing of the kernel when it runs. If the
/// work could not be queued, the close ends with `TaskWorkUnavailable` and no
/// work is left. Either way no slot and no reference count has changed.
pub proof fn lemma_close_of_unbound_descriptor(
    k: KernelState,
    closer: DeferredFdCloser,
    fd: u32,
    replies: Seq<Reply>,
)
    requires
        k.well_formed(),
        !(k.slots.contains_key(fd) && k.slots[fd] is Bound),
        drive(CloseFd::begin(closer, fd), replies).1 is Done,
        k.answers(drive(CloseFd::begin(closer, fd), replies).0),
    ensures
        ({
            let (trace, end) = drive(CloseFd::begin(closer, fd), replies);
            let closed = end->Done_0;
            &&& k.admits(trace)
            &&& k.run(trace).slots == k.slots
            &&& k.run(trace).refcount == k.refcount
            &&& if scheduling_succeeded(k, replies) {
                &&& closed.result == Err::<(), _>(DeferredFdCloseError::BadFd)
                &&& closed.work matches Some(work)
                &&& work.state() == CloserState::Scheduled
                &&& work.release_request() is None
            } else {
                &&& closed.result == Err::<(), _>(DeferredFdCloseError::TaskWorkUnavailable)
                &&& closed.work is None
            }
        }),
{
    lemma_close_cases(k, closer, fd, replies);
    ScheduledClose::carrying(0).lemma_carrying();
    reveal_with_fuel(KernelState::run, 4);
    let (trace, end) = drive(CloseFd::begin(closer, fd), replies);
    if scheduling_succeeded(k, replies) {
        assert(trace.drop_first() =~= seq![trace[1], trace[2]]);
        assert(trace.drop_first().drop_first() =~= seq![trace[2]]);
        assert(trace.drop_first().drop_first().drop_first() =~= Seq::<Exchange>::empty());
    } else if !is_kthread(k.task_flags) {
        assert(trace.drop_first() =~= seq![trace[1]]);
        assert(trace.drop_first().drop_first() =~= Seq::<Exchange>::empty());
    } else {
        assert(trace.drop_first() =~= Seq::<Exchange>::empty());
    }
}

/// A deferred close that cannot queue its work touches nothing.
///
/// If the task is a kernel thread, or the kernel refuses the work, the close
/// ends with `TaskWorkUnavailable` and leaves no work behind. The descriptor
/// was never looked at: the kernel is in the state it started from, and what
/// was open at the descriptor still is.
pub proof fn lemma_close_without_task_work(
    k: KernelState,
    closer: DeferredFdCloser,
    fd: u32,
    replies: Seq<Reply>,
)
    requires
        k.well_formed(),
        !scheduling_succeeded(k, replies),
        drive(CloseFd::begin(closer, fd), replies).1 is Done,
        k.answers(drive(CloseFd::begin(closer, fd), replies).0),
    ensures
        ({
            let (trace, end) = drive(CloseFd::begin(closer, fd), replies);
            let closed = end->Done_0;
            &&& k.admits(trace)
            &&& closed.result == Err::<(), _>(DeferredFdCloseError::TaskWorkUnavailable)
            &&& closed.work is None
            &&& k.run(trace) == k
            &&& forall|i: int| 0 <= i < trace.len() ==> !((#[trigger] trace[i]).request is Detach)
        }),
{
    lemma_close_cases(k, closer, fd, replies);
    reveal_with_fuel(KernelState::run, 3);
    let (trace, end) = drive(CloseFd::begin(closer, fd), replies);
    if !is_kthread(k.task_flags) {
        assert(trace.drop_first() =~= seq![trace[1]]);
        assert(trace.drop_first().drop_first() =~= Seq::<Exchange>::empty());
    } else {
        assert(trace.drop_first() =~= Seq::<Exchange>::empty());
    }
}

} // verus!
