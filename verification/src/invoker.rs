//! Calling a host-side callback a fixed number of times.
//!
//! The cross-thread invoker is a background worker that calls the callback
//! once for each number from zero up to a count. Each call is one blocking
//! round trip: the worker hands the callback and the receiver to the host
//! together with the number, waits until the host has run the callback, takes
//! both handles back, and pauses before it goes on. After the last round trip
//! it settles the caller's promise.
//!
//! The worker itself lives with the caller. This module decides what it does
//! next. A session is a value that owns the channel to the host and the two
//! handles. [`InvocationSession::advance`] consumes it and says what to do:
//! submit a request, which takes the handles along; pause; or finish, which
//! gives channel and handles back for good. [`PendingRound::complete`] turns
//! the host's reply into the session that goes on. Both take `self` by value,
//! so a second request can only be made from what the reply to the first one
//! gave, and the handles are never in two places.
//!
//! [`execute_callback`] is the plain case of the same loop, on the calling
//! thread and with no channel in between.

use core::marker::PhantomData;
use vstd::prelude::*;

verus! {

/// Pause after each round trip where none is chosen, in milliseconds.
pub const DEFAULT_PAUSE_MILLIS: u64 = 1000;

/// How many times a loop runs that was asked for `count` iterations: not at
/// all for a count of zero or less.
pub open spec fn iterations(count: i32) -> nat {
    if count > 0 {
        count as nat
    } else {
        0
    }
}

/// What a session is, as a mathematical value.
pub struct SessionView<C, F, R> {
    pub channel: C,
    pub callback: F,
    pub receiver: R,
    /// The number of round trips asked for.
    pub count: i32,
    /// The number of round trips made.
    pub completed: i32,
    /// The pause after each round trip, in milliseconds.
    pub pause_millis: u64,
    /// Whether the pause after the last round trip is still to come.
    pub pause_due: bool,
}

/// What is left of a session while its handles are with the host.
pub struct PendingView<C> {
    pub channel: C,
    pub count: i32,
    pub completed: i32,
    pub pause_millis: u64,
}

/// The kinds of step a worker takes.
pub enum StepKind {
    /// A round trip with this argument.
    Dispatch(i32),
    /// A pause of this many milliseconds.
    Pause(u64),
    /// The end of the session.
    Finish,
}

impl<C, F, R> SessionView<C, F, R> {
    /// A session that has made no round trip.
    pub open spec fn start(
        count: i32,
        channel: C,
        callback: F,
        receiver: R,
        pause_millis: u64,
    ) -> Self {
        SessionView {
            channel,
            callback,
            receiver,
            count,
            completed: 0,
            pause_millis,
            pause_due: false,
        }
    }

    /// The step that comes next: the pause if one is due, else the round
    /// trip whose argument is the number of round trips made, else the end.
    pub open spec fn next_step(self) -> StepKind {
        if self.pause_due {
            StepKind::Pause(self.pause_millis)
        } else if self.completed < self.count {
            StepKind::Dispatch(self.completed)
        } else {
            StepKind::Finish
        }
    }

    /// The session once its handles have left for the host.
    pub open spec fn in_flight(self) -> PendingView<C> {
        PendingView {
            channel: self.channel,
            count: self.count,
            completed: self.completed,
            pause_millis: self.pause_millis,
        }
    }

    /// The session after its pause.
    pub open spec fn rested(self) -> Self {
        SessionView {
            channel: self.channel,
            callback: self.callback,
            receiver: self.receiver,
            count: self.count,
            completed: self.completed,
            pause_millis: self.pause_millis,
            pause_due: false,
        }
    }

    /// The session after `k` more round trips, each with its pause, in
    /// which the host hands back the handles it was given.
    pub open spec fn after_round_trips(self, k: nat) -> Self
        decreases k,
    {
        if k == 0 {
            self
        } else {
            let before = self.after_round_trips((k - 1) as nat);
            before.in_flight().returned(before.callback, before.receiver).rested()
        }
    }
}

impl<C> PendingView<C> {
    /// The session that goes on once the host has handed `callback` and
    /// `receiver` back: one more round trip is made, and its pause is due.
    pub open spec fn returned<F, R>(self, callback: F, receiver: R) -> SessionView<C, F, R> {
        SessionView {
            channel: self.channel,
            callback,
            receiver,
            count: self.count,
            completed: (self.completed + 1) as i32,
            pause_millis: self.pause_millis,
            pause_due: true,
        }
    }
}

/// One invoker call: the channel to the host, the two handles, the number of
/// round trips asked for and the number made.
pub struct InvocationSession<C, F, R> {
    channel: C,
    callback: F,
    receiver: R,
    count: i32,
    completed: i32,
    pause_millis: u64,
    pause_due: bool,
}

/// A session whose handles are with the host. It holds the channel, and no
/// handle.
pub struct PendingRound<C, F, R> {
    channel: C,
    count: i32,
    completed: i32,
    pause_millis: u64,
    handles: PhantomData<(F, R)>,
}

/// What the host is asked to do in one round trip: call `callback` on
/// `receiver` with the single argument `argument`, then hand both back.
pub struct RoundTrip<F, R> {
    pub callback: F,
    pub receiver: R,
    pub argument: i32,
}

/// A session that ended because the host failed: the caller's promise is to
/// be rejected with `error`, through `channel`.
pub struct SessionFailure<C, E> {
    pub channel: C,
    pub error: E,
}

/// What the worker does next.
pub enum SessionStep<C, F, R> {
    /// Submit `request` to the channel that `pending` holds and block until
    /// the host has replied, then give the reply to `pending`.
    Dispatch { request: RoundTrip<F, R>, pending: PendingRound<C, F, R> },
    /// Sleep for `millis` milliseconds, then go on with `rest`.
    Pause { millis: u64, rest: InvocationSession<C, F, R> },
    /// Every round trip is made: settle the caller's promise successfully,
    /// through `channel`. Channel and handles come back to the caller for
    /// good.
    Finished { channel: C, callback: F, receiver: R },
}

impl<C, F, R> View for InvocationSession<C, F, R> {
    type V = SessionView<C, F, R>;

    closed spec fn view(&self) -> SessionView<C, F, R> {
        SessionView {
            channel: self.channel,
            callback: self.callback,
            receiver: self.receiver,
            count: self.count,
            completed: self.completed,
            pause_millis: self.pause_millis,
            pause_due: self.pause_due,
        }
    }
}

impl<C, F, R> View for PendingRound<C, F, R> {
    type V = PendingView<C>;

    closed spec fn view(&self) -> PendingView<C> {
        PendingView {
            channel: self.channel,
            count: self.count,
            completed: self.completed,
            pause_millis: self.pause_millis,
        }
    }
}

impl<C, F, R> InvocationSession<C, F, R> {
    #[verifier::type_invariant]
    spec fn within_count(self) -> bool {
        0 <= self.completed <= iterations(self.count)
    }

    /// A session that has made no round trip yet. A count of zero or less
    /// asks for none.
    pub fn new(count: i32, channel: C, callback: F, receiver: R, pause_millis: u64) -> (session:
        Self)
        ensures
            session@ == SessionView::start(count, channel, callback, receiver, pause_millis),
    {
        InvocationSession {
            channel,
            callback,
            receiver,
            count,
            completed: 0,
            pause_millis,
            pause_due: false,
        }
    }

    /// The number of round trips made so far.
    pub fn completed(&self) -> (n: i32)
        ensures
            n == self@.completed,
            0 <= n <= iterations(self@.count),
    {
        proof {
            use_type_invariant(self);
        }
        self.completed
    }

    /// The number of round trips still to make.
    pub fn remaining(&self) -> (n: i32)
        ensures
            n == iterations(self@.count) - self@.completed,
            n >= 0,
    {
        proof {
            use_type_invariant(self);
        }
        if self.count > 0 {
            self.count - self.completed
        } else {
            0
        }
    }

    /// Decides the worker's next step.
    ///
    /// After a round trip the step is the pause. Otherwise, while round
    /// trips are left, it is a request that carries both handles and, as its
    /// argument, the number of round trips made so far. Otherwise the session
    /// is over, and channel and handles go back to the caller.
    pub fn advance(self) -> (step: SessionStep<C, F, R>)
        ensures
            match self@.next_step() {
                StepKind::Pause(pause) => step matches SessionStep::Pause { millis, rest }
                    && millis == pause && rest@ == self@.rested(),
                StepKind::Dispatch(argument) => step matches SessionStep::Dispatch {
                    request,
                    pending,
                } && request.callback == self@.callback && request.receiver == self@.receiver
                    && request.argument == argument && pending@ == self@.in_flight(),
                StepKind::Finish => step matches SessionStep::Finished {
                    channel,
                    callback,
                    receiver,
                } && channel == self@.channel && callback == self@.callback && receiver
                    == self@.receiver,
            },
    {
        proof {
            use_type_invariant(&self);
        }
        if self.pause_due {
            SessionStep::Pause {
                millis: self.pause_millis,
                rest: InvocationSession {
                    channel: self.channel,
                    callback: self.callback,
                    receiver: self.receiver,
                    count: self.count,
                    completed: self.completed,
                    pause_millis: self.pause_millis,
                    pause_due: false,
                },
            }
        } else if self.completed < self.count {
            SessionStep::Dispatch {
                request: RoundTrip {
                    callback: self.callback,
                    receiver: self.receiver,
                    argument: self.completed,
                },
                pending: PendingRound {
                    channel: self.channel,
                    count: self.count,
                    completed: self.completed,
                    pause_millis: self.pause_millis,
                    handles: PhantomData,
                },
            }
        } else {
            SessionStep::Finished {
                channel: self.channel,
                callback: self.callback,
                receiver: self.receiver,
            }
        }
    }
}

impl<C, F, R> PendingRound<C, F, R> {
    #[verifier::type_invariant]
    spec fn round_is_due(self) -> bool {
        0 <= self.completed < self.count
    }

    /// The channel to submit the request in flight to.
    pub fn channel(&self) -> (channel: &C)
        ensures
            *channel == self@.channel,
    {
        &self.channel
    }

    /// The argument that the request in flight carries.
    pub fn argument(&self) -> (argument: i32)
        ensures
            argument == self@.completed,
            0 <= argument < self@.count,
    {
        proof {
            use_type_invariant(self);
        }
        self.completed
    }

    /// Takes the host's reply to the request in flight.
    ///
    /// Where the host ran the callback and handed the handles back, the
    /// session goes on: one more round trip is made and its pause is due.
    /// Where the host failed, the session ends with the host's error and gives
    /// up its channel, and no further request can be made from it.
    pub fn complete<E>(self, reply: Result<(F, R), E>) -> (outcome: Result<
        InvocationSession<C, F, R>,
        SessionFailure<C, E>,
    >)
        ensures
            match reply {
                Ok(handles) => outcome matches Ok(session) && session@ == self@.returned(
                    handles.0,
                    handles.1,
                ),
                Err(error) => outcome matches Err(failure) && failure.channel == self@.channel
                    && failure.error == error,
            },
    {
        proof {
            use_type_invariant(&self);
        }
        match reply {
            Ok(handles) => {
                let (callback, receiver) = handles;
                Ok(
                    InvocationSession {
                        channel: self.channel,
                        callback,
                        receiver,
                        count: self.count,
                        completed: self.completed + 1,
                        pause_millis: self.pause_millis,
                        pause_due: true,
                    },
                )
            },
            Err(error) => Err(SessionFailure { channel: self.channel, error }),
        }
    }
}

/// Starts the session of one invoker call, with the default pause.
pub fn execute_callback_from_thread<C, F, R>(
    count: i32,
    channel: C,
    callback: F,
    receiver: R,
) -> (session: InvocationSession<C, F, R>)
    ensures
        session@ == SessionView::start(count, channel, callback, receiver, DEFAULT_PAUSE_MILLIS),
{
    InvocationSession::new(count, channel, callback, receiver, DEFAULT_PAUSE_MILLIS)
}

/// Calls `callback` on the calling thread, once for each number from zero up
/// to `count`, in order, and stops at the first call that fails.
///
/// The outcome is `Ok` where every call returned `Ok`. Otherwise it is the
/// error of the first call that failed; the calls before it returned `Ok`,
/// and none was made after it.
pub fn execute_callback<E, F: Fn(i32) -> Result<(), E>>(count: i32, callback: F) -> (outcome:
    Result<(), E>)
    requires
        forall|i: i32| 0 <= i < count ==> call_requires(callback, (i,)),
    ensures
        match outcome {
            Ok(_) => forall|i: i32|
                0 <= i < count ==> call_ensures(callback, (i,), Ok::<(), E>(())),
            Err(error) => exists|i: i32|
                0 <= i < count && #[trigger] call_ensures(callback, (i,), Err::<(), E>(error))
                    && forall|j: i32| 0 <= j < i ==> call_ensures(callback, (j,), Ok::<(), E>(())),
        },
{
    let mut i: i32 = 0;
    while i < count
        invariant
            0 <= i,
            i <= count || count < 0,
            forall|k: i32| 0 <= k < count ==> call_requires(callback, (k,)),
            forall|k: i32| 0 <= k < i ==> call_ensures(callback, (k,), Ok::<(), E>(())),
        decreases count - i,
    {
        match callback(i) {
            Ok(done) => {
                let () = done;
            },
            Err(error) => {
                return Err(error);
            },
        }
        i += 1;
    }
    Ok(())
}

/// Round trips are made in order, and none is skipped or repeated.
///
/// A session that has made no round trip has, after `k` of them, made exactly
/// `k` and still holds the channel and the handles it started with. What comes next is the
/// round trip with argument `k`, or the end once `k` is the number of round
/// trips the session was started for. So a session started for `n` round
/// trips makes those with the arguments `0` to `n - 1`, in that order, and
/// then finishes; started for none, it finishes at once.
pub proof fn lemma_round_trips_in_order<C, F, R>(session: SessionView<C, F, R>, k: nat)
    requires
        session.completed == 0,
        !session.pause_due,
        k <= iterations(session.count),
    ensures
        session.after_round_trips(k).completed == k,
        session.after_round_trips(k).count == session.count,
        session.after_round_trips(k).pause_millis == session.pause_millis,
        session.after_round_trips(k).channel == session.channel,
        session.after_round_trips(k).callback == session.callback,
        session.after_round_trips(k).receiver == session.receiver,
        k < iterations(session.count) ==> session.after_round_trips(k).next_step()
            == StepKind::Dispatch(k as i32),
        k == iterations(session.count) ==> session.after_round_trips(k).next_step()
            == StepKind::Finish,
    decreases k,
{
    if k > 0 {
        lemma_round_trips_in_order(session, (k - 1) as nat);
    }
}

/// After each round trip the worker pauses once: what comes next after the
/// host's reply is the session's pause, and what comes after the pause is no
/// pause.
pub proof fn lemma_pause_follows_round_trip<C, F, R>(
    pending: PendingView<C>,
    callback: F,
    receiver: R,
)
    ensures
        pending.returned(callback, receiver).next_step() == StepKind::Pause(pending.pause_millis),
        !(pending.returned(callback, receiver).rested().next_step() is Pause),
{
}

} // verus!
