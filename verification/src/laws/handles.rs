//! Handles: what is counted for them, and what they count.

use crate::boundary::{Machine, Reply, Request, Step};
use crate::contract::{Exchange, KernelState};
use crate::file::{Fget, File};
use crate::types::{ARef, Acquire, AlwaysRefCounted};
use vstd::prelude::*;

verus! {

/// One thing that happens to the handles on an object: a handle is cloned, or
/// a handle is dropped.
pub enum HandleOp {
    Clone,
    Drop,
}

impl HandleOp {
    /// By how much the number of handles changes.
    pub open spec fn delta(self) -> int {
        match self {
            HandleOp::Clone => 1,
            HandleOp::Drop => -1,
        }
    }

    /// The exchange with the kernel that the operation makes on `obj`: the
    /// request of [`ARef::clone_ref`] or that of [`ARef::release`], answered.
    pub open spec fn exchange<T: AlwaysRefCounted>(self, obj: T) -> Exchange {
        match self {
            HandleOp::Clone => Exchange {
                request: Acquire::<T>::increment(obj),
                reply: Reply::Done,
            },
            HandleOp::Drop => Exchange {
                request: ARef::holding(obj).release_request(),
                reply: Reply::Done,
            },
        }
    }
}

/// The exchanges that `ops` make on `obj`, in order.
pub open spec fn handle_trace<T: AlwaysRefCounted>(obj: T, ops: Seq<HandleOp>) -> Seq<Exchange> {
    Seq::new(ops.len(), |i: int| ops[i].exchange(obj))
}

/// The number of handles after `ops`, where there were `held` before.
pub open spec fn held_after(held: int, ops: Seq<HandleOp>) -> int
    decreases ops.len(),
{
    if ops.len() == 0 {
        held
    } else {
        held_after(held + ops[0].delta(), ops.drop_first())
    }
}

/// Whether `ops` can happen to `held` handles: both cloning and dropping take
/// a handle that exists.
pub open spec fn orderly(held: int, ops: Seq<HandleOp>) -> bool
    decreases ops.len(),
{
    ops.len() == 0 || (held >= 1 && orderly(held + ops[0].delta(), ops.drop_first()))
}

/// The state `k` with the reference count of `object` set to `count`.
pub open spec fn with_references(k: KernelState, object: usize, count: int) -> KernelState {
    KernelState {
        refcount: if count <= 0 {
            k.refcount.remove(object)
        } else {
            k.refcount.insert(object, count as nat)
        },
        ..k
    }
}

/// Handles neither leak nor release twice.
///
/// Take an object that has, besides the references that are claimed, at
/// least one for every handle to it, and let the handles be cloned and
/// dropped in any order, by any number of threads. Then the kernel is only
/// ever asked what it permits, and in the end the object's reference count
/// has changed by exactly as much as the number of handles has, so that
/// there still is a reference for every handle. Nothing else in the kernel
/// has changed. In particular, once every clone is dropped again, the kernel
/// is in the state it started from.
pub proof fn lemma_handles_balance<T: AlwaysRefCounted>(
    k: KernelState,
    obj: T,
    held: int,
    ops: Seq<HandleOp>,
)
    requires
        k.well_formed(),
        0 <= held <= k.unclaimed(obj.address()),
        orderly(held, ops),
    ensures
        k.admits(handle_trace(obj, ops)),
        k.run(handle_trace(obj, ops)).well_formed(),
        k.run(handle_trace(obj, ops)).claimed(obj.address()) == k.claimed(obj.address()),
        k.run(handle_trace(obj, ops)).unclaimed(obj.address()) == k.unclaimed(obj.address())
            + held_after(held, ops) - held,
        0 <= held_after(held, ops) <= k.run(handle_trace(obj, ops)).unclaimed(obj.address()),
        k.run(handle_trace(obj, ops)) == with_references(
            k,
            obj.address(),
            k.references(obj.address()) + held_after(held, ops) - held,
        ),
        k.run(handle_trace(obj, ops)).references(obj.address()) == k.references(obj.address())
            + held_after(held, ops) - held,
        held_after(held, ops) == held ==> k.run(handle_trace(obj, ops)) == k,
    decreases ops.len(),
{
    let object = obj.address();
    let trace = handle_trace(obj, ops);
    if ops.len() == 0 {
        assert(with_references(k, object, k.references(object) as int).refcount =~= k.refcount);
    } else {
        ARef::holding(obj).lemma_holding();
        let first = trace[0];
        let next = k.after(first.request, first.reply);
        let rest = ops.drop_first();
        k.lemma_after_well_formed(first.request, first.reply);
        k.lemma_binders_after(first.request, first.reply, object);
        assert(trace.drop_first() =~= handle_trace(obj, rest));
        assert(next == with_references(k, object, k.references(object) + ops[0].delta()));
        lemma_handles_balance(next, obj, held + ops[0].delta(), rest);
        let last = next.run(handle_trace(obj, rest));
        assert(last.refcount =~= with_references(
            k,
            object,
            k.references(object) + held_after(held, ops) - held,
        ).refcount);
        if held_after(held, ops) == held {
            assert(last.refcount =~= k.refcount);
        }
    }
}

/// What can happen to the handles can happen up to any moment.
proof fn lemma_orderly_prefix(held: int, ops: Seq<HandleOp>, n: int)
    requires
        orderly(held, ops),
        0 <= n <= ops.len(),
    ensures
        orderly(held, ops.take(n)),
    decreases ops.len(),
{
    if n > 0 {
        lemma_orderly_prefix(held + ops[0].delta(), ops.drop_first(), n - 1);
        assert(ops.take(n).drop_first() =~= ops.drop_first().take(n - 1));
    }
}

/// No handle outlives its object.
///
/// Under the conditions of [`lemma_handles_balance`], stop after any number
/// of the operations: as long as one handle is left, the object exists.
pub proof fn lemma_object_outlives_handles<T: AlwaysRefCounted>(
    k: KernelState,
    obj: T,
    held: int,
    ops: Seq<HandleOp>,
    n: int,
)
    requires
        k.well_formed(),
        0 <= held <= k.unclaimed(obj.address()),
        orderly(held, ops),
        0 <= n <= ops.len(),
        held_after(held, ops.take(n)) >= 1,
    ensures
        k.admits(handle_trace(obj, ops.take(n))),
        k.run(handle_trace(obj, ops.take(n))).live(obj.address()),
{
    lemma_orderly_prefix(held, ops, n);
    lemma_handles_balance(k, obj, held, ops.take(n));
}

/// Whether `merged` is the operations of two threads, `left` and `right`, in
/// some order that keeps the order of each thread.
pub open spec fn interleaves(merged: Seq<HandleOp>, left: Seq<HandleOp>, right: Seq<HandleOp>) -> bool
    decreases merged.len(),
{
    if merged.len() == 0 {
        left.len() == 0 && right.len() == 0
    } else {
        ||| left.len() > 0 && merged[0] == left[0] && interleaves(
            merged.drop_first(),
            left.drop_first(),
            right,
        )
        ||| right.len() > 0 && merged[0] == right[0] && interleaves(
            merged.drop_first(),
            left,
            right.drop_first(),
        )
    }
}

/// Threads cannot put each other's handles out of order.
///
/// Let two threads each clone and drop handles that they hold themselves.
/// However their operations interleave, the whole is a sequence that can
/// happen to the handles of both, and it leaves as many handles as the two
/// threads leave together. So [`lemma_handles_balance`] holds of what the
/// threads do concurrently.
pub proof fn lemma_threads_interleave(
    merged: Seq<HandleOp>,
    left: Seq<HandleOp>,
    right: Seq<HandleOp>,
    held_left: int,
    held_right: int,
)
    requires
        interleaves(merged, left, right),
        orderly(held_left, left),
        orderly(held_right, right),
        0 <= held_left,
        0 <= held_right,
    ensures
        orderly(held_left + held_right, merged),
        held_after(held_left + held_right, merged) == held_after(held_left, left) + held_after(
            held_right,
            right,
        ),
        0 <= held_after(held_left, left),
        0 <= held_after(held_right, right),
    decreases merged.len(),
{
    if merged.len() > 0 {
        if left.len() > 0 && merged[0] == left[0] && interleaves(
            merged.drop_first(),
            left.drop_first(),
            right,
        ) {
            lemma_threads_interleave(
                merged.drop_first(),
                left.drop_first(),
                right,
                held_left + left[0].delta(),
                held_right,
            );
        } else {
            lemma_threads_interleave(
                merged.drop_first(),
                left,
                right.drop_first(),
                held_left,
                held_right + right[0].delta(),
            );
        }
    }
}

/// A lookup yields a handle that owns its reference.
///
/// Whatever the kernel answers, the lookup ends at once. If the kernel found
/// a file, that file is bound to the descriptor, the handle refers to it, and
/// the file has one reference more than before, which is not claimed: it is
/// the handle's. If the kernel found nothing, the lookup ends with `BadFdError`
/// and the kernel's state is what it was.
pub proof fn lemma_fget(k: KernelState, fd: u32, reply: Reply)
    requires
        k.well_formed(),
        k.may_reply(Request::AcquireById { fd }, reply),
    ensures
        k.permits(Request::AcquireById { fd }),
        k.after(Request::AcquireById { fd }, reply).well_formed(),
        k.after(Request::AcquireById { fd }, reply).slots == k.slots,
        match (Fget { fd }).next(reply) {
            Step::Done(Ok(handle)) => {
                let file = handle.object().address();
                &&& reply == Reply::Reference(file)
                &&& file != 0
                &&& k.bound_to(fd, file)
                &&& k.after(Request::AcquireById { fd }, reply).references(file) == k.references(
                    file,
                ) + 1
                &&& k.after(Request::AcquireById { fd }, reply).live(file)
                &&& k.after(Request::AcquireById { fd }, reply).unclaimed(file) == k.unclaimed(
                    file,
                ) + 1
            },
            Step::Done(Err(error)) => {
                &&& reply == Reply::Reference(0)
                &&& k.after(Request::AcquireById { fd }, reply) == k
            },
            Step::Call(_) => false,
        },
{
    let request = Request::AcquireById { fd };
    k.lemma_after_well_formed(request, reply);
    match (Fget { fd }).next(reply) {
        Step::Done(Ok(handle)) => {
            handle.lemma_holding();
            let file = handle.object();
            file.lemma_at();
            k.lemma_binders_after(request, reply, file.address());
            k.lemma_bound_is_live(fd, file.address());
            assert(k.claimed(file.address()) <= k.references(file.address()));
        },
        _ => {},
    }
}

} // verus!
