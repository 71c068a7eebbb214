//! A future for the result of a routine that runs on another thread, and the
//! decisions of that routine.
//!
//! The routine drives a generator to completion: before each resumption it
//! checks whether the future is still wanted, and it hands the generator's
//! result to the future through a one-shot channel.

use vstd::prelude::*;
use futures::sync::oneshot::{Receiver, Sender};

verus! {

#[verifier::external_type_specification]
#[verifier::external_body]
#[verifier::reject_recursive_types(T)]
pub struct ExReceiver<T>(Receiver<T>);

#[verifier::external_type_specification]
#[verifier::external_body]
#[verifier::reject_recursive_types(T)]
pub struct ExSender<T>(Sender<T>);

/// The sending half of a one-shot channel, marked with its channel.
#[verifier::reject_recursive_types(T)]
pub struct ChannelSender<T> {
    pub inner: Sender<T>,
    channel: Ghost<int>,
}

/// The receiving half of a one-shot channel, marked with its channel.
#[verifier::reject_recursive_types(T)]
pub struct ChannelReceiver<T> {
    pub inner: Receiver<T>,
    channel: Ghost<int>,
}

impl<T> ChannelSender<T> {
    /// The channel that this half belongs to.
    pub closed spec fn channel(&self) -> int {
        self.channel@
    }
}

impl<T> ChannelReceiver<T> {
    /// The channel that this half belongs to.
    pub closed spec fn channel(&self) -> int {
        self.channel@
    }
}

/// `futures::sync::oneshot::channel`: the contract claims that the sender and
/// the receiver it returns are the two halves of one channel, by marking both
/// with the same channel. Nothing else of the halves is claimed.
#[verifier::external_body]
fn channel<T>() -> (r: (ChannelSender<T>, ChannelReceiver<T>))
    ensures
        r.0.channel() == r.1.channel(),
{
    let (tx, rx) = futures::sync::oneshot::channel();
    (ChannelSender { inner: tx, channel: Ghost(arbitrary()) }, ChannelReceiver {
        inner: rx,
        channel: Ghost(arbitrary()),
    })
}

/// Whether a value is available.
#[derive(Debug, PartialEq, Eq)]
pub enum Async<T> {
    Ready(T),
    NotReady,
}

/// What polling the receiving half of the channel gave.
#[derive(Debug)]
pub enum Received<T> {
    /// The value that the routine sent.
    Ready(T),
    /// Nothing was sent yet.
    NotReady,
    /// The sending half went away without sending.
    Canceled,
}

/// What the future answers to a poll that received `c`: the routine's result
/// once it is there, `NotReady` before. `None` where the sending half went
/// away without a result, which a routine that runs to its end never does.
pub open spec fn resolution<R, E>(c: Received<Result<R, E>>) -> Option<Result<Async<R>, E>> {
    match c {
        Received::Ready(Ok(v)) => Some(Ok(Async::Ready(v))),
        Received::Ready(Err(e)) => Some(Err(e)),
        Received::NotReady => Some(Ok(Async::NotReady)),
        Received::Canceled => None,
    }
}

/// The answer to a poll that received `c`.
pub fn resolve<R, E>(c: Received<Result<R, E>>) -> (r: Option<Result<Async<R>, E>>)
    ensures
        r == resolution(c),
{
    match c {
        Received::Ready(Ok(v)) => Some(Ok(Async::Ready(v))),
        Received::Ready(Err(e)) => Some(Err(e)),
        Received::NotReady => Some(Ok(Async::NotReady)),
        Received::Canceled => None,
    }
}

/// A future for the result of a routine that runs on another thread. The
/// executor polls its receiver, and `resolve` gives the answer.
#[verifier::reject_recursive_types(R)]
#[verifier::reject_recursive_types(E)]
pub struct ThreadFuture<R, E> {
    pub rx: ChannelReceiver<Result<R, E>>,
}

impl<R, E> ThreadFuture<R, E> {
    /// The channel that the future receives from.
    pub open spec fn channel(&self) -> int {
        self.rx.channel()
    }

    /// A future, and the sender through which its routine delivers the
    /// result: the two halves of one fresh channel.
    pub fn new() -> (r: (ThreadFuture<R, E>, ChannelSender<Result<R, E>>))
        ensures
            r.0.channel() == r.1.channel(),
    {
        let (tx, rx) = channel();
        (ThreadFuture { rx }, tx)
    }
}

/// Where the routine stands.
#[derive(Clone, Copy, Debug, PartialEq, Eq, Structural)]
pub enum Phase {
    /// About to check whether the future is still wanted.
    Checking,
    /// About to resume the generator.
    Resuming,
    /// Done: nothing more happens.
    Finished,
}

/// What one resumption of the generator gave.
#[derive(Debug)]
pub enum GeneratorState<T> {
    Yielded,
    Complete(T),
}

/// What the routine learns from outside.
#[derive(Debug)]
pub enum RoutineEvent<T> {
    /// Whether the receiving half of the channel went away.
    Checked { receiver_canceled: bool },
    /// The outcome of resuming the generator.
    Resumed(GeneratorState<T>),
}

/// What the routine does next.
#[derive(Debug)]
pub enum RoutineAction<T> {
    /// Resume the generator.
    Resume,
    /// Give the thread back, and check again when next run.
    Yield,
    /// Send the result to the future, and end.
    Send(T),
    /// End without a result: nobody wants it.
    Stop,
}

/// Whether the routine, in `phase`, awaits `event`.
pub open spec fn expects<T>(phase: Phase, event: RoutineEvent<T>) -> bool {
    match (phase, event) {
        (Phase::Checking, RoutineEvent::Checked { .. }) => true,
        (Phase::Resuming, RoutineEvent::Resumed(_)) => true,
        _ => false,
    }
}

/// The next phase and the action of the routine on `event` in `phase`.
pub open spec fn transition<T>(phase: Phase, event: RoutineEvent<T>) -> (Phase, RoutineAction<T>) {
    match event {
        RoutineEvent::Checked { receiver_canceled } => if receiver_canceled {
            (Phase::Finished, RoutineAction::Stop)
        } else {
            (Phase::Resuming, RoutineAction::Resume)
        },
        RoutineEvent::Resumed(GeneratorState::Yielded) => (Phase::Checking, RoutineAction::Yield),
        RoutineEvent::Resumed(GeneratorState::Complete(t)) => (
            Phase::Finished,
            RoutineAction::Send(t),
        ),
    }
}

/// The routine that drives a generator and delivers its result.
pub struct Routine {
    pub phase: Phase,
}

impl Routine {
    /// A routine about to make its first check.
    pub fn new() -> (r: Routine)
        ensures
            r.phase == Phase::Checking,
    {
        Routine { phase: Phase::Checking }
    }

    /// Takes one event and returns what to do next.
    pub fn step<T>(&mut self, event: RoutineEvent<T>) -> (r: RoutineAction<T>)
        requires
            expects(old(self).phase, event),
        ensures
            (final(self).phase, r) == transition(old(self).phase, event),
    {
        match event {
            RoutineEvent::Checked { receiver_canceled } => {
                if receiver_canceled {
                    self.phase = Phase::Finished;
                    RoutineAction::Stop
                } else {
                    self.phase = Phase::Resuming;
                    RoutineAction::Resume
                }
            },
            RoutineEvent::Resumed(GeneratorState::Yielded) => {
                self.phase = Phase::Checking;
                RoutineAction::Yield
            },
            RoutineEvent::Resumed(GeneratorState::Complete(t)) => {
                self.phase = Phase::Finished;
                RoutineAction::Send(t)
            },
        }
    }
}

/// The phase and the actions after a run of events from `phase`; `None` where
/// an event comes that the routine does not await.
pub open spec fn run<T>(phase: Phase, events: Seq<RoutineEvent<T>>) -> Option<
    (Phase, Seq<RoutineAction<T>>),
>
    decreases events.len(),
{
    if events.len() == 0 {
        Some((phase, Seq::empty()))
    } else if !expects(phase, events[0]) {
        None
    } else {
        let (next, action) = transition(phase, events[0]);
        match run(next, events.drop_first()) {
            Some((last, actions)) => Some((last, seq![action] + actions)),
            None => None,
        }
    }
}

/// The number of `Send` actions in `actions`.
pub open spec fn sends<T>(actions: Seq<RoutineAction<T>>) -> nat
    decreases actions.len(),
{
    if actions.len() == 0 {
        0
    } else {
        (if actions[0] is Send {
            1nat
        } else {
            0nat
        }) + sends(actions.drop_first())
    }
}

/// A routine delivers at most one result, and delivering it is the last thing
/// it does; it resumes the generator only right after finding the future
/// still wanted; a finished routine takes no more events.
pub proof fn lemma_routine_run<T>(phase: Phase, events: Seq<RoutineEvent<T>>)
    requires
        run(phase, events) is Some,
    ensures
        ({
            let (last, actions) = run(phase, events).unwrap();
            &&& actions.len() == events.len()
            &&& sends(actions) <= 1
            &&& sends(actions) == 1 ==> actions.last() is Send && last == Phase::Finished
            &&& phase == Phase::Finished ==> events.len() == 0
            &&& forall|i: int|
                0 <= i < actions.len() && #[trigger] actions[i] is Resume ==> events[i]
                    == RoutineEvent::<T>::Checked { receiver_canceled: false }
        }),
    decreases events.len(),
{
    if events.len() > 0 {
        let (next, action) = transition(phase, events[0]);
        lemma_routine_run(next, events.drop_first());
        let (last, rest) = run(next, events.drop_first()).unwrap();
        let actions = seq![action] + rest;
        assert(actions.drop_first() =~= rest);
        if action is Send {
            assert(next == Phase::Finished);
            assert(rest.len() == 0);
        }
        assert forall|i: int|
            0 <= i < actions.len() && #[trigger] actions[i] is Resume implies events[i]
                == RoutineEvent::<T>::Checked { receiver_canceled: false } by {
            if i > 0 {
                assert(actions[i] == rest[i - 1]);
                assert(events.drop_first()[i - 1] == events[i]);
            }
        }
        if sends(actions) == 1 && !(action is Send) {
            assert(actions.last() == rest.last());
        }
    }
}

/// The events of a run in which the future stays wanted and the generator
/// yields `k` times, then completes with `v`: a check and a resumption per run
/// of the routine.
pub open spec fn yielding_events<T>(k: nat, v: T) -> Seq<RoutineEvent<T>>
    decreases k,
{
    let check = RoutineEvent::Checked { receiver_canceled: false };
    if k == 0 {
        seq![check, RoutineEvent::Resumed(GeneratorState::Complete(v))]
    } else {
        seq![check, RoutineEvent::Resumed(GeneratorState::Yielded)] + yielding_events(
            (k - 1) as nat,
            v,
        )
    }
}

/// The actions of the routine on `yielding_events(k, v)`.
pub open spec fn yielding_actions<T>(k: nat, v: T) -> Seq<RoutineAction<T>>
    decreases k,
{
    if k == 0 {
        seq![RoutineAction::Resume, RoutineAction::Send(v)]
    } else {
        seq![RoutineAction::Resume, RoutineAction::Yield] + yielding_actions((k - 1) as nat, v)
    }
}

/// A generator that yields `k` times and then completes with `v`, while the
/// future stays wanted, is resumed `k + 1` times: on each of the first `k`
/// runs the routine resumes it and yields, and on run `k + 1` it resumes it,
/// sends `v` and finishes. It sends exactly once.
pub proof fn lemma_complete_run<T>(k: nat, v: T)
    ensures
        run(Phase::Checking, yielding_events(k, v)) == Some(
            (Phase::Finished, yielding_actions(k, v)),
        ),
        yielding_actions(k, v).len() == 2 * k + 2,
        forall|i: int| 0 <= i < 2 * k + 2 && i % 2 == 0 ==> #[trigger] yielding_actions(k, v)[i] is Resume,
        forall|i: int| 0 <= i < 2 * k && i % 2 == 1 ==> #[trigger] yielding_actions(k, v)[i] is Yield,
        yielding_actions(k, v)[2 * k + 1 as int] == RoutineAction::Send(v),
        sends(yielding_actions(k, v)) == 1,
    decreases k,
{
    let ev = yielding_events(k, v);
    let acts = yielding_actions(k, v);
    if k == 0 {
        assert(ev.drop_first().drop_first() =~= Seq::<RoutineEvent<T>>::empty());
        assert(acts.drop_first().drop_first() =~= Seq::<RoutineAction<T>>::empty());
        let e1 = ev.drop_first();
        assert(e1[0] == RoutineEvent::Resumed(GeneratorState::Complete(v)));
        assert(run(Phase::Finished, e1.drop_first()) == Some(
            (Phase::Finished, Seq::<RoutineAction<T>>::empty()),
        ));
        assert(seq![RoutineAction::Send(v)] + Seq::<RoutineAction<T>>::empty() =~= seq![
            RoutineAction::Send(v),
        ]);
        assert(run(Phase::Resuming, e1) == Some((Phase::Finished, seq![RoutineAction::Send(v)])));
        assert(seq![RoutineAction::Resume] + seq![RoutineAction::<T>::Send(v)] =~= acts);
        let a1 = acts.drop_first();
        assert(a1.drop_first() =~= Seq::<RoutineAction<T>>::empty());
        assert(sends(a1.drop_first()) == 0);
        assert(sends(a1) == 1);
    } else {
        let k1 = (k - 1) as nat;
        lemma_complete_run(k1, v);
        let rest = yielding_events(k1, v);
        let rest_acts = yielding_actions(k1, v);
        assert(ev.drop_first().drop_first() =~= rest);
        assert(acts.drop_first().drop_first() =~= rest_acts);
        assert(run(Phase::Resuming, ev.drop_first()) == Some(
            (Phase::Finished, seq![RoutineAction::Yield] + rest_acts),
        )) by {
            assert(ev.drop_first()[0] == RoutineEvent::Resumed(GeneratorState::<T>::Yielded));
        }
        assert(seq![RoutineAction::Resume] + (seq![RoutineAction::Yield] + rest_acts) =~= acts);
        assert forall|i: int| 0 <= i < 2 * k + 2 && i % 2 == 0 implies #[trigger] acts[i] is Resume by {
            if i >= 2 {
                assert(acts[i] == rest_acts[i - 2]);
            }
        }
        assert forall|i: int| 0 <= i < 2 * k && i % 2 == 1 implies #[trigger] acts[i] is Yield by {
            if i >= 2 {
                assert(acts[i] == rest_acts[i - 2]);
            }
        }
        assert(acts[2 * k + 1 as int] == rest_acts[2 * k1 + 1 as int]);
        assert(sends(acts.drop_first()) == sends(rest_acts)) by {
            assert(acts.drop_first().drop_first() =~= rest_acts);
        }
    }
}

} // verus!
