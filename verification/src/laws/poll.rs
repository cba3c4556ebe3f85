//! Wait lists: how they get published, and how they are taken back.

use crate::boundary::{Machine, Reply, Request, Step};
use crate::contract::{Event, Exchange, KernelState};
use crate::driver::drive;
use crate::file::File;
use crate::sync::poll::{PollCondVar, RegisterWait, Teardown};
use crate::types::AlwaysRefCounted;
use vstd::prelude::*;

verus! {

/// Registering publishes the wait list, if the table takes registrations.
///
/// The driver hands the registration the kernel's replies until it is done.
/// If the table has a queueing callback, that callback was called once, on
/// the file and the wait list given, and some wait table now refers to the
/// wait list. If the table has none, nothing was asked beyond the callback
/// itself and the kernel's state is what it was. Every request was one the
/// kernel permits, given that the file exists. No slot and no reference count
/// has changed: registering passes no ownership.
pub proof fn lemma_register(
    k: KernelState,
    table: usize,
    file: File,
    cv: PollCondVar,
    replies: Seq<Reply>,
)
    requires
        k.well_formed(),
        k.live(file.address()),
        cv.wait_list() != 0,
        drive(RegisterWait::begin(table, file.address(), cv.wait_list()), replies).1 is Done,
        k.answers(drive(RegisterWait::begin(table, file.address(), cv.wait_list()), replies).0),
    ensures
        ({
            let trace = drive(
                RegisterWait::begin(table, file.address(), cv.wait_list()),
                replies,
            ).0;
            &&& k.admits(trace)
            &&& replies.len() >= 1
            &&& replies[0] matches Reply::Reference(callback)
            &&& if callback == 0 {
                &&& trace == seq![
                    Exchange { request: Request::ReadQueueProc { table }, reply: replies[0] },
                ]
                &&& k.run(trace) == k
            } else {
                &&& trace == seq![
                    Exchange { request: Request::ReadQueueProc { table }, reply: replies[0] },
                    Exchange {
                        request: Request::Register {
                            callback,
                            file: file.address(),
                            wait_list: cv.wait_list(),
                            table,
                        },
                        reply: Reply::Done,
                    },
                ]
                &&& k.run(trace) == KernelState {
                    published: k.published.insert(cv.wait_list()),
                    ..k
                }
                &&& k.run(trace).has_registrations(cv.wait_list())
            }
        }),
{
    let start = RegisterWait::begin(table, file.address(), cv.wait_list());
    let (trace, end) = drive(start, replies);
    let m0 = start->Call_0;
    let r0 = replies[0];
    let x0 = Exchange { request: Request::ReadQueueProc { table }, reply: r0 };
    let t1 = drive(m0.next(r0), replies.drop_first());
    assert(trace == seq![x0] + t1.0);
    k.lemma_first(x0, t1.0);
    let callback = r0->Reference_0;
    reveal_with_fuel(KernelState::run, 3);
    if callback == 0 {
        assert(t1.0 =~= Seq::<Exchange>::empty());
        assert(trace =~= seq![x0]);
        assert(trace.drop_first() =~= Seq::<Exchange>::empty());
    } else {
        let m1 = m0.next(r0)->Call_0;
        let rest = replies.drop_first();
        let x1 = Exchange { request: m1.pending(), reply: rest[0] };
        let t2 = drive(m1.next(rest[0]), rest.drop_first());
        assert(t1.0 == seq![x1] + t2.0);
        k.lemma_first(x1, t2.0);
        assert(t2.0 =~= Seq::<Exchange>::empty());
        assert(trace =~= seq![x0, x1]);
        assert(trace.drop_first() =~= seq![x1]);
        assert(trace.drop_first().drop_first() =~= Seq::<Exchange>::empty());
    }
}

/// Notifiers cannot find a wait list that no wait table refers to.
///
/// While no wait table refers to `wait_list`, whatever the notifiers do, none
/// of them starts to walk it, no wait table comes to refer to it, and if none
/// was walking it before, none is afterwards.
pub proof fn lemma_unpublished_stays_unfound(k: KernelState, wait_list: usize, events: Seq<Event>)
    requires
        !k.published.contains(wait_list),
        k.allows_all(events),
    ensures
        forall|i: int| 0 <= i < events.len() ==> #[trigger] events[i] != Event::BeginNotify(wait_list),
        k.following_all(events).published == k.published,
        !k.readers.contains(wait_list) ==> k.following_all(events).unobserved(wait_list),
    decreases events.len(),
{
    if events.len() > 0 {
        let next = k.following(events[0]);
        let rest = events.drop_first();
        lemma_unpublished_stays_unfound(next, wait_list, rest);
        assert forall|i: int| 0 <= i < events.len() implies #[trigger] events[i]
            != Event::BeginNotify(wait_list) by {
            if i > 0 {
                assert(events[i] == rest[i - 1]);
            }
        }
    }
}

/// After the teardown, nothing in the kernel can reach the wait list.
///
/// The teardown of a condition variable asks for two things, the second only
/// when the first is answered: the eviction of its wait list, then the wait
/// for the walkers under way. In between, notifiers may race the teardown in
/// any way the kernel allows. When the teardown is done, no wait table refers
/// to the wait list and no notifier is walking it, so its memory can be
/// freed. Whatever notifiers do later, none of them ever starts to walk the
/// list. This holds however many registrations the condition variable had.
pub proof fn lemma_teardown_isolates(
    k: KernelState,
    cv: PollCondVar,
    racing: Seq<Event>,
    later: Seq<Event>,
)
    requires
        k.after(Request::Evict { wait_list: cv.wait_list() }, Reply::Done).allows_all(racing),
        k.after(Request::Evict { wait_list: cv.wait_list() }, Reply::Done).following_all(
            racing,
        ).after(Request::Synchronize, Reply::Done).allows_all(later),
    ensures
        ({
            let wait_list = cv.wait_list();
            let evicting = Teardown::begin(wait_list)->Call_0;
            let evict = Request::Evict { wait_list };
            let torn_down = k.after(evict, Reply::Done).following_all(racing).after(
                Request::Synchronize,
                Reply::Done,
            );
            &&& Teardown::begin(wait_list) == Step::<Teardown, ()>::Call(evicting)
            &&& evicting.pending() == evict
            &&& evicting.next(Reply::Done) matches Step::Call(waiting)
            &&& waiting.pending() == Request::Synchronize
            &&& waiting.next(Reply::Done) == Step::<Teardown, ()>::Done(())
            &&& k.permits(evict)
            &&& k.may_reply(evict, Reply::Done)
            &&& forall|i: int|
                0 <= i < racing.len() ==> #[trigger] racing[i] != Event::BeginNotify(wait_list)
            &&& !torn_down.has_registrations(wait_list)
            &&& torn_down.unobserved(wait_list)
            &&& forall|i: int|
                0 <= i < later.len() ==> #[trigger] later[i] != Event::BeginNotify(wait_list)
            &&& torn_down.following_all(later).unobserved(wait_list)
        }),
{
    let wait_list = cv.wait_list();
    let evicted = k.after(Request::Evict { wait_list }, Reply::Done);
    lemma_unpublished_stays_unfound(evicted, wait_list, racing);
    let torn_down = evicted.following_all(racing).after(Request::Synchronize, Reply::Done);
    lemma_unpublished_stays_unfound(torn_down, wait_list, later);
}

} // verus!
