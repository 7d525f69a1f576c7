//! The event publisher.
//!
//! An aggregator is made once, with the host's dispatch channel and the
//! callback and receiver that events go to. Publishing an event turns it into
//! its JSON text and prepares the one request that the caller then submits to
//! the channel, without waiting for the host. Disposing of the aggregator
//! drops the channel; from then on publishing fails and prepares nothing.

use std::sync::Arc;
use vstd::prelude::*;
use crate::event_json::lemma_json_is_injective;

verus! {

/// What can be published.
#[derive(Debug, PartialEq, Eq)]
pub enum Event {
    Log { message: String },
    OtherMessage { code: i32, description: String },
}

/// An event as a mathematical value.
pub enum EventView {
    Log { message: Seq<char> },
    OtherMessage { code: i32, description: Seq<char> },
}

impl View for Event {
    type V = EventView;

    open spec fn view(&self) -> EventView {
        match self {
            Event::Log { message } => EventView::Log { message: message@ },
            Event::OtherMessage { code, description } => EventView::OtherMessage {
                code: *code,
                description: description@,
            },
        }
    }
}

impl Clone for Event {
    fn clone(&self) -> (copy: Self)
        ensures
            copy@ == self@,
    {
        match self {
            Event::Log { message } => Event::Log { message: message.clone() },
            Event::OtherMessage { code, description } => Event::OtherMessage {
                code: *code,
                description: description.clone(),
            },
        }
    }
}

/// Why nothing was published.
#[derive(Debug, Clone, Copy, PartialEq, Eq)]
pub enum PublishError {
    /// The aggregator has been disposed of: it has no channel any more.
    Disposed,
}

/// The request that publishing one event prepares. The caller submits it to
/// `channel`; on the host's thread it calls `callback` on `receiver` with
/// `payload` as the single argument.
pub struct DispatchRequest<'a, C, F, R> {
    pub channel: &'a C,
    pub callback: Arc<F>,
    pub receiver: Arc<R>,
    pub payload: String,
}

/// A request as a mathematical value.
pub struct RequestView<C, F, R> {
    pub channel: C,
    pub callback: F,
    pub receiver: R,
    pub payload: Seq<char>,
}

impl<'a, C, F, R> View for DispatchRequest<'a, C, F, R> {
    type V = RequestView<C, F, R>;

    open spec fn view(&self) -> RequestView<C, F, R> {
        RequestView {
            channel: *self.channel,
            callback: *self.callback,
            receiver: *self.receiver,
            payload: self.payload@,
        }
    }
}

/// An aggregator as a mathematical value: the channel, unless it has been
/// disposed of, and the two handles.
pub struct AggregatorView<C, F, R> {
    pub channel: Option<C>,
    pub callback: F,
    pub receiver: R,
}

impl<C, F, R> AggregatorView<C, F, R> {
    /// The aggregator that `EventAggregator::new` makes.
    pub open spec fn open(channel: C, callback: F, receiver: R) -> Self {
        AggregatorView { channel: Some(channel), callback, receiver }
    }

    /// Whether the channel is gone.
    pub open spec fn is_disposed(self) -> bool {
        self.channel is None
    }

    /// The aggregator without its channel.
    pub open spec fn disposed(self) -> Self {
        AggregatorView { channel: None, callback: self.callback, receiver: self.receiver }
    }

    /// What publishing `event` comes to: one request with the event's JSON
    /// text for the aggregator's callback and receiver, or the error where
    /// the channel is gone.
    pub open spec fn publish(self, event: EventView) -> Result<RequestView<C, F, R>, PublishError> {
        match self.channel {
            Some(channel) => Ok(
                RequestView {
                    channel,
                    callback: self.callback,
                    receiver: self.receiver,
                    payload: event.json(),
                },
            ),
            None => Err(PublishError::Disposed),
        }
    }
}

/// The publisher: the host's dispatch channel and shared handles to the
/// callback and the receiver.
pub struct EventAggregator<C, F, R> {
    channel: Option<C>,
    receiver: Arc<R>,
    callback: Arc<F>,
}

impl<C, F, R> View for EventAggregator<C, F, R> {
    type V = AggregatorView<C, F, R>;

    closed spec fn view(&self) -> AggregatorView<C, F, R> {
        AggregatorView {
            channel: self.channel,
            callback: *self.callback,
            receiver: *self.receiver,
        }
    }
}

/// Calls `Arc::clone`: another handle to the same value.
#[verifier::external_body]
fn share<T>(handle: &Arc<T>) -> (shared: Arc<T>)
    ensures
        shared == *handle,
{
    Arc::clone(handle)
}

impl<C, F, R> EventAggregator<C, F, R> {
    /// An aggregator that publishes to `callback` on `receiver` through
    /// `channel`.
    pub fn new(channel: C, callback: F, receiver: R) -> (aggregator: Self)
        ensures
            aggregator@ == AggregatorView::open(channel, callback, receiver),
    {
        EventAggregator {
            channel: Some(channel),
            callback: Arc::new(callback),
            receiver: Arc::new(receiver),
        }
    }

    /// Whether the aggregator has been disposed of.
    pub fn is_disposed(&self) -> (gone: bool)
        ensures
            gone == self@.is_disposed(),
    {
        self.channel.is_none()
    }

    /// Prepares the request that publishes `event`.
    ///
    /// While the aggregator has its channel, the outcome is exactly one
    /// request: it names the channel, holds handles of its own to the
    /// callback and the receiver, and carries the event's JSON text. Once the
    /// aggregator is disposed of, the outcome is `PublishError::Disposed` and
    /// there is no request.
    pub fn publish(&self, event: Event) -> (outcome: Result<
        DispatchRequest<'_, C, F, R>,
        PublishError,
    >)
        ensures
            match self@.publish(event@) {
                Ok(expected) => outcome matches Ok(request) && request@ == expected,
                Err(error) => outcome matches Err(e) && e == error,
            },
    {
        match &self.channel {
            None => Err(PublishError::Disposed),
            Some(channel) => {
                let payload = event.serialize();
                Ok(
                    DispatchRequest {
                        channel,
                        callback: share(&self.callback),
                        receiver: share(&self.receiver),
                        payload,
                    },
                )
            },
        }
    }

    /// Drops the channel. Disposing of an aggregator twice is the same as
    /// disposing of it once.
    pub fn dispose(&mut self)
        ensures
            final(self)@ == old(self)@.disposed(),
    {
        self.channel = None;
    }
}

/// The place that holds the one aggregator of a process: empty until the
/// aggregator is initialised, and never emptied or filled again afterwards.
pub struct AggregatorCell<C, F, R> {
    slot: Option<EventAggregator<C, F, R>>,
}

impl<C, F, R> View for AggregatorCell<C, F, R> {
    type V = Option<AggregatorView<C, F, R>>;

    closed spec fn view(&self) -> Option<AggregatorView<C, F, R>> {
        match self.slot {
            Some(aggregator) => Some(aggregator@),
            None => None,
        }
    }
}

impl<C, F, R> AggregatorCell<C, F, R> {
    /// An empty cell.
    pub fn new() -> (cell: Self)
        ensures
            cell@ is None,
    {
        AggregatorCell { slot: None }
    }

    /// The aggregator, if the cell holds one.
    pub fn get(&self) -> (found: Option<&EventAggregator<C, F, R>>)
        ensures
            match self@ {
                Some(aggregator) => found matches Some(held) && held@ == aggregator,
                None => found is None,
            },
    {
        self.slot.as_ref()
    }

    /// Puts `aggregator` into the cell if it is empty. A cell that holds an
    /// aggregator keeps it and hands `aggregator` back.
    pub fn set(&mut self, aggregator: EventAggregator<C, F, R>) -> (outcome: Result<
        (),
        EventAggregator<C, F, R>,
    >)
        ensures
            match old(self)@ {
                Some(held) => final(self)@ == Some(held) && outcome == Err::<
                    (),
                    EventAggregator<C, F, R>,
                >(aggregator),
                None => final(self)@ == Some(aggregator@) && outcome is Ok,
            },
    {
        if self.slot.is_some() {
            Err(aggregator)
        } else {
            self.slot = Some(aggregator);
            Ok(())
        }
    }
}

impl<C, F, R> EventAggregator<C, F, R> {
    /// The aggregator of the process. It has to be initialised first.
    pub fn instance(cell: &AggregatorCell<C, F, R>) -> (aggregator: &EventAggregator<C, F, R>)
        requires
            cell@ is Some,
        ensures
            Some(aggregator@) == cell@,
    {
        cell.get().unwrap()
    }
}

/// Makes the aggregator of the process. This is done once: the cell has to
/// be empty.
pub fn initialize_event_aggregator<C, F, R>(
    cell: &mut AggregatorCell<C, F, R>,
    channel: C,
    callback: F,
    receiver: R,
)
    requires
        old(cell)@ is None,
    ensures
        final(cell)@ == Some(AggregatorView::open(channel, callback, receiver)),
{
    let _ = cell.set(EventAggregator::new(channel, callback, receiver));
}

/// Disposes of the aggregator of the process, which has to be initialised.
/// The cell keeps the aggregator, now without its channel.
pub fn dispose_event_aggregator<C, F, R>(cell: &mut AggregatorCell<C, F, R>)
    requires
        old(cell)@ is Some,
    ensures
        final(cell)@ == Some(old(cell)@.unwrap().disposed()),
{
    match cell.slot.take() {
        Some(mut aggregator) => {
            aggregator.dispose();
            cell.slot = Some(aggregator);
        },
        None => {},
    }
}

/// Once an aggregator is disposed of, publishing any event fails with
/// `PublishError::Disposed` and prepares no request, and the aggregator stays
/// disposed of however often it is disposed of again.
pub proof fn lemma_publish_after_dispose<C, F, R>(
    aggregator: AggregatorView<C, F, R>,
    event: EventView,
)
    ensures
        aggregator.disposed().is_disposed(),
        aggregator.disposed().publish(event) == Err::<RequestView<C, F, R>, PublishError>(
            PublishError::Disposed,
        ),
        aggregator.disposed().disposed() == aggregator.disposed(),
        aggregator.is_disposed() ==> aggregator.disposed() == aggregator,
{
}

/// A request tells which event it publishes: an aggregator that has its
/// channel prepares different requests for different events.
pub proof fn lemma_request_identifies_event<C, F, R>(
    aggregator: AggregatorView<C, F, R>,
    a: EventView,
    b: EventView,
)
    requires
        !aggregator.is_disposed(),
        aggregator.publish(a) == aggregator.publish(b),
    ensures
        a == b,
{
    assert(aggregator.publish(a).unwrap().payload == a.json());
    assert(aggregator.publish(b).unwrap().payload == b.json());
    lemma_json_is_injective(a, b);
}

} // verus!
