//! Running an operation to its end.

use crate::boundary::{Machine, Reply, Request, Step};
use crate::contract::Exchange;
use vstd::prelude::*;

verus! {

/// What comes of running an operation: the driver starts at `step` and hands
/// the machine one reply of `replies` after the other, until the operation is
/// done or the replies are spent. The result is the exchanges made, and the
/// step reached.
pub open spec fn drive<M: Machine>(step: Step<M, M::Output>, replies: Seq<Reply>) -> (
    Seq<Exchange>,
    Step<M, M::Output>,
)
    decreases replies.len(),
{
    match step {
        Step::Call(machine) if replies.len() > 0 => {
            let rest = drive(machine.next(replies[0]), replies.drop_first());
            (seq![Exchange { request: machine.pending(), reply: replies[0] }] + rest.0, rest.1)
        },
        _ => (Seq::empty(), step),
    }
}

/// The number of answers that the operation at `step` still needs at most.
pub open spec fn answers_left<M: Machine>(step: Step<M, M::Output>) -> nat {
    match step {
        Step::Call(machine) => machine.budget() + 1,
        Step::Done(_) => 0,
    }
}

/// A driver that has come to a waiting machine goes on by one exchange when
/// it hands over one more reply.
pub proof fn lemma_drive_one_more<M: Machine>(
    first: Step<M, M::Output>,
    replies: Seq<Reply>,
    reply: Reply,
)
    requires
        drive(first, replies).1 is Call,
    ensures
        drive(first, replies).0.len() == replies.len(),
        drive(first, replies.push(reply)) == (
            drive(first, replies).0.push(
                Exchange { request: drive(first, replies).1->Call_0.pending(), reply },
            ),
            drive(first, replies).1->Call_0.next(reply),
        ),
    decreases replies.len(),
{
    let machine = drive(first, replies).1->Call_0;
    let last = Exchange { request: machine.pending(), reply };
    let more = replies.push(reply);
    assert(more[0] == if replies.len() == 0 {
        reply
    } else {
        replies[0]
    });
    if replies.len() == 0 {
        assert(first == Step::<M, M::Output>::Call(machine));
        assert(more.drop_first() =~= Seq::<Reply>::empty());
        assert(drive(machine.next(reply), more.drop_first()) == (
            Seq::<Exchange>::empty(),
            machine.next(reply),
        ));
        assert(seq![last] + Seq::<Exchange>::empty() =~= Seq::<Exchange>::empty().push(last));
    } else {
        assert(first is Call);
        let start = first->Call_0;
        let head = Exchange { request: start.pending(), reply: replies[0] };
        let rest = drive(start.next(replies[0]), replies.drop_first());
        assert(drive(first, replies) == (seq![head] + rest.0, rest.1));
        lemma_drive_one_more(start.next(replies[0]), replies.drop_first(), reply);
        assert(more.drop_first() =~= replies.drop_first().push(reply));
        assert(drive(first, more) == (
            seq![head] + drive(start.next(replies[0]), more.drop_first()).0,
            drive(start.next(replies[0]), more.drop_first()).1,
        ));
        assert(seq![head] + rest.0.push(last) =~= (seq![head] + rest.0).push(last));
    }
}

/// Runs the operation at `first` against `kernel`, which performs each request
/// and returns the reply.
///
/// The driver hands every reply to the machine, and stops when the operation
/// is done. It also stops, with `None`, when a reply has not the shape of an
/// answer to the request made: the operation cannot go on from there. The
/// second part of the result is the replies that `kernel` gave, in order: they
/// are what [`drive`] needs to retrace the run.
pub fn run<M: Machine, K: Fn(Request) -> Reply>(first: Step<M, M::Output>, kernel: K) -> (end: (
    Option<M::Output>,
    Ghost<Seq<Reply>>,
))
    requires
        forall|request: Request| call_requires(kernel, (request,)),
    ensures
        drive(first, end.1@).0.len() == end.1@.len(),
        forall|i: int|
            0 <= i < end.1@.len() ==> (#[trigger] drive(first, end.1@).0[i]).reply == end.1@[i],
        forall|i: int|
            0 <= i < end.1@.len() ==> call_ensures(
                kernel,
                (drive(first, end.1@).0[i].request,),
                #[trigger] end.1@[i],
            ),
        match end.0 {
            Some(output) => drive(first, end.1@).1 == Step::<M, M::Output>::Done(output),
            None => {
                &&& drive(first, end.1@).1 is Call
                &&& end.1@.len() > 0
                &&& !drive(first, end.1@).0.last().request.answered_by(end.1@.last())
            },
        },
{
    let mut step = first;
    let mut replies: Ghost<Seq<Reply>> = Ghost(Seq::empty());
    loop
        invariant
            forall|request: Request| call_requires(kernel, (request,)),
            drive(first, replies@).1 == step,
            drive(first, replies@).0.len() == replies@.len(),
            forall|i: int|
                0 <= i < replies@.len() ==> (#[trigger] drive(first, replies@).0[i]).reply
                    == replies@[i],
            forall|i: int|
                0 <= i < replies@.len() ==> call_ensures(
                    kernel,
                    (drive(first, replies@).0[i].request,),
                    #[trigger] replies@[i],
                ),
        decreases answers_left(step),
    {
        match step {
            Step::Done(output) => {
                return (Some(output), replies);
            },
            Step::Call(machine) => {
                let request = machine.request();
                let reply = kernel(request);
                let fits = request.is_answered_by(&reply);
                proof {
                    lemma_drive_one_more(first, replies@, reply);
                    if fits {
                        machine.lemma_answer(reply);
                    } else {
                        machine.lemma_no_answer(reply);
                    }
                }
                replies = Ghost(replies@.push(reply));
                step = machine.step(reply);
                if !fits {
                    return (None, replies);
                }
            },
        }
    }
}

} // verus!
