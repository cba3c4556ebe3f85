//! Reservations: the two ways out of one, and that there is no third.

use crate::boundary::{Machine, Reply, Request, Step};
use crate::contract::{KernelState, Slot};
use crate::error::Error;
use crate::file::{File, FileDescriptorReservation, GetUnusedFd};
use crate::types::{ARef, AlwaysRefCounted};
use vstd::prelude::*;

verus! {

/// Reserving claims one unused slot, or nothing.
///
/// Whatever the kernel answers, the reservation ends at once. If the kernel
/// grants a slot, that slot was unused, is now reserved, and the reservation
/// holds its number; if it refuses, the error carries the kernel's errno and
/// the kernel's state is what it was. Either way no binding and no reference
/// count has changed.
pub proof fn lemma_reserve(k: KernelState, flags: u32, reply: Reply)
    requires
        k.well_formed(),
        k.may_reply(Request::ReserveSlot { flags }, reply),
    ensures
        k.permits(Request::ReserveSlot { flags }),
        k.after(Request::ReserveSlot { flags }, reply).well_formed(),
        k.after(Request::ReserveSlot { flags }, reply).bindings() == k.bindings(),
        k.after(Request::ReserveSlot { flags }, reply).refcount == k.refcount,
        match (GetUnusedFd { flags }).next(reply) {
            Step::Done(Ok(reservation)) => {
                &&& reply matches Reply::Status(fd)
                &&& fd >= 0
                &&& reservation.slot() == fd
                &&& k.unused(reservation.slot())
                &&& k.after(Request::ReserveSlot { flags }, reply).reserved(reservation.slot())
                &&& k.after(Request::ReserveSlot { flags }, reply).slots == k.slots.insert(
                    reservation.slot(),
                    Slot::Reserved,
                )
            },
            Step::Done(Err(error)) => {
                &&& reply matches Reply::Status(fd)
                &&& fd < 0
                &&& error.errno() == Error::clamp(fd)
                &&& k.after(Request::ReserveSlot { flags }, reply) == k
            },
            Step::Call(_) => false,
        },
{
    let request = Request::ReserveSlot { flags };
    let after = k.after(request, reply);
    k.lemma_after_well_formed(request, reply);
    assert(after.bindings() =~= k.bindings());
    match (GetUnusedFd { flags }).next(reply) {
        Step::Done(Ok(reservation)) => {
            reservation.lemma_of();
        },
        Step::Done(Err(error)) => {
            error.lemma_of();
        },
        Step::Call(_) => {},
    }
}

/// Giving a reservation up frees its slot and binds nothing.
///
/// The request of [`FileDescriptorReservation::cancel`] is one the kernel
/// permits. After it the slot is unused, every other slot is as it was, and
/// so are all bindings and reference counts. The reservation cannot be
/// committed any more: the kernel would not permit it.
pub proof fn lemma_cancel(k: KernelState, reservation: FileDescriptorReservation)
    requires
        k.well_formed(),
        k.reserved(reservation.slot()),
    ensures
        k.permits(reservation.cancel_request()),
        k.after(reservation.cancel_request(), Reply::Done).well_formed(),
        k.after(reservation.cancel_request(), Reply::Done).slots == k.slots.remove(
            reservation.slot(),
        ),
        k.after(reservation.cancel_request(), Reply::Done).unused(reservation.slot()),
        k.after(reservation.cancel_request(), Reply::Done).bindings() == k.bindings(),
        k.after(reservation.cancel_request(), Reply::Done).refcount == k.refcount,
        forall|file: ARef<File>|
            !k.after(reservation.cancel_request(), Reply::Done).permits(
                #[trigger] reservation.install_request(file),
            ),
{
    let request = reservation.cancel_request();
    k.lemma_after_well_formed(request, Reply::Done);
    assert(k.after(request, Reply::Done).bindings() =~= k.bindings());
}

/// A reservation that is given up leaves no trace.
///
/// Reserve a slot and cancel the reservation: the kernel is in the state it
/// started from.
pub proof fn lemma_reserve_then_cancel(k: KernelState, flags: u32, fd: i32)
    requires
        k.well_formed(),
        k.may_reply(Request::ReserveSlot { flags }, Reply::Status(fd)),
        fd >= 0,
    ensures
        (GetUnusedFd { flags }).next(Reply::Status(fd)) matches Step::Done(Ok(reservation))
            && k.after(Request::ReserveSlot { flags }, Reply::Status(fd)).after(
            reservation.cancel_request(),
            Reply::Done,
        ) == k,
{
    let reservation = FileDescriptorReservation::of(fd as u32);
    reservation.lemma_of();
    let reserved = k.after(Request::ReserveSlot { flags }, Reply::Status(fd));
    let cancelled = reserved.after(reservation.cancel_request(), Reply::Done);
    assert(cancelled.slots =~= k.slots);
}

/// Committing a reservation binds exactly the committed file.
///
/// The request of [`FileDescriptorReservation::fd_install`] is one the kernel
/// permits, given that the handle owns a reference. After it the reserved
/// slot is bound to the handle's file, and a lookup of the slot finds that
/// file or nothing. Every other binding is as it was. No reference count has
/// changed: the handle's reference is now the slot's, and the other handles
/// to the file still have theirs. The reservation cannot
/// be given up any more: the kernel would not permit it.
pub proof fn lemma_install(k: KernelState, reservation: FileDescriptorReservation, file: ARef<File>)
    requires
        k.well_formed(),
        k.reserved(reservation.slot()),
        k.live(file.object().address()),
        k.spare(file.object().address()),
    ensures
        k.permits(reservation.install_request(file)),
        k.after(reservation.install_request(file), Reply::Done).well_formed(),
        k.after(reservation.install_request(file), Reply::Done).bound_to(
            reservation.slot(),
            file.object().address(),
        ),
        k.after(reservation.install_request(file), Reply::Done).bindings() == k.bindings().insert(
            reservation.slot(),
            file.object().address(),
        ),
        k.after(reservation.install_request(file), Reply::Done).refcount == k.refcount,
        k.after(reservation.install_request(file), Reply::Done).owed(file.object().address())
            == k.owed(file.object().address()) + 1,
        k.after(reservation.install_request(file), Reply::Done).unclaimed(
            file.object().address(),
        ) >= k.unclaimed(file.object().address()) - 1,
        forall|found: usize| #[trigger]
            k.after(reservation.install_request(file), Reply::Done).may_reply(
                Request::AcquireById { fd: reservation.slot() },
                Reply::Reference(found),
            ) ==> found == 0 || found == file.object().address(),
        !k.after(reservation.install_request(file), Reply::Done).permits(
            reservation.cancel_request(),
        ),
{
    let request = reservation.install_request(file);
    let after = k.after(request, Reply::Done);
    k.lemma_after_well_formed(request, Reply::Done);
    k.lemma_binders_after(request, Reply::Done, file.object().address());
    assert(after.bindings() =~= k.bindings().insert(reservation.slot(), file.object().address()));
}

} // verus!
