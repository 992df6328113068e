//! The streaming session: connect, subscribe once, then hand every text
//! frame to the consumer until the other side closes.
//!
//! The session is a state machine. Its caller does the outside work that an
//! action names, reports what came of it as an event, and gets the next
//! action. The machine never looks into a frame's text.

use crate::utils::json::{json_quote, json_string_text};
use vstd::prelude::*;

verus! {

/// Why a session ended in failure.
#[derive(Debug, Clone, PartialEq, Eq)]
pub enum WebSocketError {
    /// The connection could not be opened, or failed later; the text says how.
    ConnectionError(String),
    /// The consumer took no more frames; the text is the frame left over.
    ChannelSendError(String),
}

pub enum WebSocketErrorView {
    ConnectionError(Seq<char>),
    ChannelSendError(Seq<char>),
}

impl View for WebSocketError {
    type V = WebSocketErrorView;

    open spec fn view(&self) -> WebSocketErrorView {
        match self {
            WebSocketError::ConnectionError(reason) => WebSocketErrorView::ConnectionError(
                reason@,
            ),
            WebSocketError::ChannelSendError(text) => WebSocketErrorView::ChannelSendError(text@),
        }
    }
}

/// What the session waits for.
#[derive(Debug, Clone, Copy, PartialEq, Eq, Structural)]
pub enum StreamState {
    /// For the connection to open.
    Connecting,
    /// For the subscription request to be sent.
    Subscribing,
    /// For the next frame.
    Receiving,
    /// For the consumer to take a frame's text.
    Delivering,
    /// For nothing: the session is over.
    Finished,
}

/// What came of the outside work that the last action asked for.
#[derive(Debug, Clone, PartialEq, Eq)]
pub enum StreamEvent {
    /// The connection is open.
    Connected,
    /// The subscription request was sent.
    Subscribed,
    /// A text frame came in.
    Text(String),
    /// A close frame came in.
    Close,
    /// A frame of another kind came in.
    Other,
    /// The connection gave its last frame.
    Ended,
    /// The consumer took the text.
    Delivered,
    /// The work failed. The text is the transport's account of the failure
    /// or, where a delivery failed, the text that was not taken.
    Failed(String),
}

pub enum StreamEventView {
    Connected,
    Subscribed,
    Text(Seq<char>),
    Close,
    Other,
    Ended,
    Delivered,
    Failed(Seq<char>),
}

impl View for StreamEvent {
    type V = StreamEventView;

    open spec fn view(&self) -> StreamEventView {
        match self {
            StreamEvent::Connected => StreamEventView::Connected,
            StreamEvent::Subscribed => StreamEventView::Subscribed,
            StreamEvent::Text(text) => StreamEventView::Text(text@),
            StreamEvent::Close => StreamEventView::Close,
            StreamEvent::Other => StreamEventView::Other,
            StreamEvent::Ended => StreamEventView::Ended,
            StreamEvent::Delivered => StreamEventView::Delivered,
            StreamEvent::Failed(reason) => StreamEventView::Failed(reason@),
        }
    }
}

/// The outside work that the session asks for next.
#[derive(Debug, PartialEq, Eq)]
pub enum StreamAction {
    /// Open a connection to this address.
    Connect(String),
    /// Send this text as one frame.
    Subscribe(String),
    /// Wait for the next frame.
    Receive,
    /// Hand this text to the consumer.
    Deliver(String),
    /// Stop, with this outcome.
    Finish(Result<(), WebSocketError>),
}

pub enum StreamActionView {
    Connect(Seq<char>),
    Subscribe(Seq<char>),
    Receive,
    Deliver(Seq<char>),
    Finish(Result<(), WebSocketErrorView>),
}

impl View for StreamAction {
    type V = StreamActionView;

    open spec fn view(&self) -> StreamActionView {
        match self {
            StreamAction::Connect(url) => StreamActionView::Connect(url@),
            StreamAction::Subscribe(text) => StreamActionView::Subscribe(text@),
            StreamAction::Receive => StreamActionView::Receive,
            StreamAction::Deliver(text) => StreamActionView::Deliver(text@),
            StreamAction::Finish(Ok(())) => StreamActionView::Finish(Ok(())),
            StreamAction::Finish(Err(e)) => StreamActionView::Finish(Err(e@)),
        }
    }
}

/// The subscription request for one instrument's book channel.
pub open spec fn subscribe_text(symbol: Seq<char>) -> Seq<char> {
    "{\"op\":\"subscribe\",\"args\":[{\"channel\":\"books\",\"instId\":"@ + json_string_text(
        symbol,
    ) + "}]}"@
}

/// The session's next state and action after an event, or nothing where
/// the event answers no work that the state waits for.
pub open spec fn next_step(state: StreamState, event: StreamEventView, symbol: Seq<char>) -> Option<
    (StreamState, StreamActionView),
> {
    match (state, event) {
        (StreamState::Connecting, StreamEventView::Connected) => Some(
            (StreamState::Subscribing, StreamActionView::Subscribe(subscribe_text(symbol))),
        ),
        (StreamState::Connecting, StreamEventView::Failed(reason)) => Some(
            (
                StreamState::Finished,
                StreamActionView::Finish(Err(WebSocketErrorView::ConnectionError(reason))),
            ),
        ),
        (StreamState::Subscribing, StreamEventView::Subscribed) => Some(
            (StreamState::Receiving, StreamActionView::Receive),
        ),
        (StreamState::Subscribing, StreamEventView::Failed(reason)) => Some(
            (
                StreamState::Finished,
                StreamActionView::Finish(Err(WebSocketErrorView::ConnectionError(reason))),
            ),
        ),
        (StreamState::Receiving, StreamEventView::Text(text)) => Some(
            (StreamState::Delivering, StreamActionView::Deliver(text)),
        ),
        (StreamState::Receiving, StreamEventView::Close) => Some(
            (StreamState::Finished, StreamActionView::Finish(Ok(()))),
        ),
        (StreamState::Receiving, StreamEventView::Other) => Some(
            (StreamState::Receiving, StreamActionView::Receive),
        ),
        (StreamState::Receiving, StreamEventView::Ended) => Some(
            (StreamState::Finished, StreamActionView::Finish(Ok(()))),
        ),
        (StreamState::Receiving, StreamEventView::Failed(reason)) => Some(
            (
                StreamState::Finished,
                StreamActionView::Finish(Err(WebSocketErrorView::ConnectionError(reason))),
            ),
        ),
        (StreamState::Delivering, StreamEventView::Delivered) => Some(
            (StreamState::Receiving, StreamActionView::Receive),
        ),
        (StreamState::Delivering, StreamEventView::Failed(text)) => Some(
            (
                StreamState::Finished,
                StreamActionView::Finish(Err(WebSocketErrorView::ChannelSendError(text))),
            ),
        ),
        _ => None,
    }
}

/// The text of the subscription request for a symbol.
pub fn subscribe_message(symbol: &str) -> (r: String)
    ensures
        r@ == subscribe_text(symbol@),
{
    let mut message = "{\"op\":\"subscribe\",\"args\":[{\"channel\":\"books\",\"instId\":".to_owned();
    let quoted = json_quote(symbol);
    message.append(quoted.as_str());
    message.append("}]}");
    message
}

/// A client for one streaming endpoint. It holds the address and nothing else.
pub struct OKXWebSocketClient {
    url: String,
}

impl OKXWebSocketClient {
    /// The address of the endpoint.
    pub closed spec fn endpoint(&self) -> Seq<char> {
        self.url@
    }

    pub fn new(url: &str) -> (r: Self)
        ensures
            r.endpoint() == url@,
    {
        OKXWebSocketClient { url: url.to_owned() }
    }

    /// The address of the endpoint.
    pub fn url(&self) -> (r: &str)
        ensures
            r@ == self.endpoint(),
    {
        self.url.as_str()
    }

    /// Begins a session: the first work is to connect to the endpoint.
    pub fn start(&self) -> (r: (StreamState, StreamAction))
        ensures
            r.0 == StreamState::Connecting,
            r.1@ == StreamActionView::Connect(self.endpoint()),
    {
        (StreamState::Connecting, StreamAction::Connect(self.url.clone()))
    }

    /// Decides what a session for `symbol` does after an event.
    pub fn step(state: StreamState, event: StreamEvent, symbol: &str) -> (r: Option<
        (StreamState, StreamAction),
    >)
        ensures
            match next_step(state, event@, symbol@) {
                None => r is None,
                Some((next, action)) => r matches Some(step) && step.0 == next && step.1@
                    == action,
            },
    {
        match state {
            StreamState::Connecting => match event {
                StreamEvent::Connected => Some(
                    (StreamState::Subscribing, StreamAction::Subscribe(subscribe_message(symbol))),
                ),
                StreamEvent::Failed(reason) => Some(
                    (
                        StreamState::Finished,
                        StreamAction::Finish(Err(WebSocketError::ConnectionError(reason))),
                    ),
                ),
                _ => None,
            },
            StreamState::Subscribing => match event {
                StreamEvent::Subscribed => Some((StreamState::Receiving, StreamAction::Receive)),
                StreamEvent::Failed(reason) => Some(
                    (
                        StreamState::Finished,
                        StreamAction::Finish(Err(WebSocketError::ConnectionError(reason))),
                    ),
                ),
                _ => None,
            },
            StreamState::Receiving => match event {
                StreamEvent::Text(text) => Some(
                    (StreamState::Delivering, StreamAction::Deliver(text)),
                ),
                StreamEvent::Close => Some((StreamState::Finished, StreamAction::Finish(Ok(())))),
                StreamEvent::Other => Some((StreamState::Receiving, StreamAction::Receive)),
                StreamEvent::Ended => Some((StreamState::Finished, StreamAction::Finish(Ok(())))),
                StreamEvent::Failed(reason) => Some(
                    (
                        StreamState::Finished,
                        StreamAction::Finish(Err(WebSocketError::ConnectionError(reason))),
                    ),
                ),
                _ => None,
            },
            StreamState::Delivering => match event {
                StreamEvent::Delivered => Some((StreamState::Receiving, StreamAction::Receive)),
                StreamEvent::Failed(text) => Some(
                    (
                        StreamState::Finished,
                        StreamAction::Finish(Err(WebSocketError::ChannelSendError(text))),
                    ),
                ),
                _ => None,
            },
            StreamState::Finished => None,
        }
    }
}

/// The event is something that a receiving session can get from the
/// connection: a frame, the end of the frames, or a failure.
pub open spec fn is_inbound(event: StreamEventView) -> bool {
    event is Text || event is Close || event is Other || event is Ended || event is Failed
}

/// The event ends a receiving session.
pub open spec fn ends_session(event: StreamEventView) -> bool {
    event is Close || event is Ended || event is Failed
}

/// Nothing in the sequence ends a receiving session.
pub open spec fn all_frames_pass(inbound: Seq<StreamEventView>) -> bool {
    forall|i: int| 0 <= i < inbound.len() ==> (#[trigger] inbound[i]) is Text || inbound[i] is Other
}

/// The events of a session that gets the given events from the connection,
/// with a consumer that takes every text.
pub open spec fn events_of_inbound(inbound: Seq<StreamEventView>) -> Seq<StreamEventView>
    decreases inbound.len(),
{
    if inbound.len() == 0 {
        Seq::empty()
    } else {
        let rest = events_of_inbound(inbound.drop_first());
        match inbound[0] {
            StreamEventView::Text(text) => seq![
                StreamEventView::Text(text),
                StreamEventView::Delivered,
            ] + rest,
            event => seq![event] + rest,
        }
    }
}

/// The actions of a session from a state on, one for each event in turn, up
/// to the action that ends it.
pub open spec fn actions(
    state: StreamState,
    events: Seq<StreamEventView>,
    symbol: Seq<char>,
) -> Seq<StreamActionView>
    decreases events.len(),
{
    if events.len() == 0 {
        Seq::empty()
    } else {
        match next_step(state, events[0], symbol) {
            None => Seq::empty(),
            Some((next, action)) => seq![action] + actions(next, events.drop_first(), symbol),
        }
    }
}

/// The texts that the actions hand to the consumer, in order.
pub open spec fn delivered(actions: Seq<StreamActionView>) -> Seq<Seq<char>>
    decreases actions.len(),
{
    if actions.len() == 0 {
        Seq::empty()
    } else {
        let rest = delivered(actions.drop_first());
        match actions[0] {
            StreamActionView::Deliver(text) => seq![text] + rest,
            _ => rest,
        }
    }
}

/// The texts of the text frames that come before the first event that
/// ends the session.
pub open spec fn texts_before_end(inbound: Seq<StreamEventView>) -> Seq<Seq<char>>
    decreases inbound.len(),
{
    if inbound.len() == 0 {
        Seq::empty()
    } else {
        match inbound[0] {
            StreamEventView::Text(text) => seq![text] + texts_before_end(inbound.drop_first()),
            StreamEventView::Other => texts_before_end(inbound.drop_first()),
            _ => Seq::empty(),
        }
    }
}

/// The outcome that an event which ends a receiving session gives it.
pub open spec fn outcome_of(end: StreamEventView) -> Result<(), WebSocketErrorView> {
    match end {
        StreamEventView::Failed(reason) => Err(WebSocketErrorView::ConnectionError(reason)),
        _ => Ok(()),
    }
}

/// How a receiving session answers the first of the events that it gets
/// from the connection.
proof fn lemma_first_inbound(inbound: Seq<StreamEventView>, symbol: Seq<char>)
    requires
        inbound.len() > 0,
        is_inbound(inbound[0]),
    ensures
        actions(StreamState::Receiving, events_of_inbound(inbound), symbol) == match inbound[0] {
            StreamEventView::Text(text) => seq![
                StreamActionView::Deliver(text),
                StreamActionView::Receive,
            ] + actions(
                StreamState::Receiving,
                events_of_inbound(inbound.drop_first()),
                symbol,
            ),
            StreamEventView::Other => seq![StreamActionView::Receive] + actions(
                StreamState::Receiving,
                events_of_inbound(inbound.drop_first()),
                symbol,
            ),
            end => seq![StreamActionView::Finish(outcome_of(end))],
        },
{
    let later = events_of_inbound(inbound.drop_first());
    let events = events_of_inbound(inbound);
    let tail = actions(StreamState::Receiving, later, symbol);
    match inbound[0] {
        StreamEventView::Text(text) => {
            let second = seq![StreamEventView::Delivered] + later;
            assert(events.drop_first() == second);
            assert(second.drop_first() == later);
            assert(actions(StreamState::Delivering, second, symbol) == seq![
                StreamActionView::Receive,
            ] + tail);
        },
        StreamEventView::Other => {
            assert(events.drop_first() == later);
        },
        _ => {
            assert(actions(StreamState::Finished, later, symbol) == Seq::<
                StreamActionView,
            >::empty());
        },
    }
}

/// Two runs of actions, one after the other, hand over the texts of the
/// first and then those of the second.
proof fn lemma_delivered_after(first: Seq<StreamActionView>, rest: Seq<StreamActionView>)
    ensures
        delivered(first + rest) == delivered(first) + delivered(rest),
    decreases first.len(),
{
    if first.len() > 0 {
        assert((first + rest).drop_first() == first.drop_first() + rest);
        lemma_delivered_after(first.drop_first(), rest);
    }
}

/// While the consumer takes what it is handed, a receiving session hands it
/// the text of every text frame that comes before the end, unchanged and in
/// the order of receipt, and nothing else.
pub proof fn lemma_forwards_texts_in_order(inbound: Seq<StreamEventView>, symbol: Seq<char>)
    requires
        forall|i: int| 0 <= i < inbound.len() ==> is_inbound(#[trigger] inbound[i]),
    ensures
        delivered(actions(StreamState::Receiving, events_of_inbound(inbound), symbol))
            == texts_before_end(inbound),
    decreases inbound.len(),
{
    if inbound.len() > 0 {
        let rest = inbound.drop_first();
        lemma_forwards_texts_in_order(rest, symbol);
        lemma_first_inbound(inbound, symbol);
        let tail = actions(StreamState::Receiving, events_of_inbound(rest), symbol);
        match inbound[0] {
            StreamEventView::Text(text) => {
                let first = seq![StreamActionView::Deliver(text), StreamActionView::Receive];
                lemma_delivered_after(first, tail);
                assert(delivered(first) == seq![text]) by {
                    reveal_with_fuel(delivered, 3);
                }
            },
            StreamEventView::Other => {
                let first = seq![StreamActionView::Receive];
                lemma_delivered_after(first, tail);
                assert(delivered(first) == Seq::<Seq<char>>::empty()) by {
                    reveal_with_fuel(delivered, 2);
                }
            },
            end => {
                let only = seq![StreamActionView::Finish(outcome_of(end))];
                assert(delivered(only) == Seq::<Seq<char>>::empty()) by {
                    reveal_with_fuel(delivered, 2);
                }
            },
        }
    }
}

/// A close frame, the end of the frames and a failure of the connection
/// each end a receiving session: the first two without an error, the last
/// with the error that holds the account of the failure.
pub proof fn lemma_end_decides_outcome(
    before: Seq<StreamEventView>,
    end: StreamEventView,
    after: Seq<StreamEventView>,
    symbol: Seq<char>,
)
    requires
        all_frames_pass(before),
        ends_session(end),
    ensures
        actions(StreamState::Receiving, events_of_inbound(before + seq![end] + after), symbol).len()
            > 0,
        actions(
            StreamState::Receiving,
            events_of_inbound(before + seq![end] + after),
            symbol,
        ).last() == StreamActionView::Finish(outcome_of(end)),
    decreases before.len(),
{
    let inbound = before + seq![end] + after;
    lemma_first_inbound(inbound, symbol);
    if before.len() > 0 {
        assert(inbound.drop_first() == before.drop_first() + seq![end] + after);
        lemma_end_decides_outcome(before.drop_first(), end, after, symbol);
        lemma_first_inbound(inbound.drop_first(), symbol);
    }
}

/// A consumer that takes no more ends the session with the error that
/// holds the text left over. Every text before it was handed over.
pub proof fn lemma_refused_delivery_ends_with_error(
    before: Seq<StreamEventView>,
    text: Seq<char>,
    symbol: Seq<char>,
)
    requires
        all_frames_pass(before),
    ensures
        ({
            let events = events_of_inbound(before) + seq![
                StreamEventView::Text(text),
                StreamEventView::Failed(text),
            ];
            let all = actions(StreamState::Receiving, events, symbol);
            &&& all.last() == StreamActionView::Finish(
                Err(WebSocketErrorView::ChannelSendError(text)),
            )
            &&& delivered(all) == texts_before_end(before) + seq![text]
        }),
    decreases before.len(),
{
    let last = seq![StreamEventView::Text(text), StreamEventView::Failed(text)];
    let events = events_of_inbound(before) + last;
    let all = actions(StreamState::Receiving, events, symbol);
    let refusal = StreamActionView::Finish(Err(WebSocketErrorView::ChannelSendError(text)));
    if before.len() == 0 {
        assert(actions(StreamState::Finished, last.drop_first().drop_first(), symbol) == Seq::<
            StreamActionView,
        >::empty());
        assert(actions(StreamState::Delivering, last.drop_first(), symbol) == seq![refusal]);
        assert(delivered(all) == seq![text]) by {
            reveal_with_fuel(delivered, 3);
        }
    } else {
        let rest = before.drop_first();
        lemma_refused_delivery_ends_with_error(rest, text, symbol);
        let later = events_of_inbound(rest) + last;
        let tail = actions(StreamState::Receiving, later, symbol);
        match before[0] {
            StreamEventView::Text(t) => {
                let second = seq![StreamEventView::Delivered] + later;
                assert(events.drop_first() == second);
                assert(second.drop_first() == later);
                assert(actions(StreamState::Delivering, second, symbol) == seq![
                    StreamActionView::Receive,
                ] + tail);
                let first = seq![StreamActionView::Deliver(t), StreamActionView::Receive];
                assert(all == first + tail);
                lemma_delivered_after(first, tail);
                assert(delivered(first) == seq![t]) by {
                    reveal_with_fuel(delivered, 3);
                }
            },
            _ => {
                assert(events.drop_first() == later);
                let first = seq![StreamActionView::Receive];
                lemma_delivered_after(first, tail);
                assert(delivered(first) == Seq::<Seq<char>>::empty()) by {
                    reveal_with_fuel(delivered, 2);
                }
            },
        }
    }
}

/// Once connected, a session never asks to send the request again.
pub proof fn lemma_never_subscribes_again(
    state: StreamState,
    events: Seq<StreamEventView>,
    symbol: Seq<char>,
)
    requires
        state != StreamState::Connecting,
    ensures
        forall|i: int|
            0 <= i < actions(state, events, symbol).len() ==> !(#[trigger] actions(
                state,
                events,
                symbol,
            )[i] is Subscribe),
    decreases events.len(),
{
    if events.len() > 0 {
        match next_step(state, events[0], symbol) {
            None => {},
            Some((next, action)) => {
                lemma_never_subscribes_again(next, events.drop_first(), symbol);
            },
        }
    }
}

/// A session sends the subscription request once: as soon as the
/// connection is open, and before it waits for any frame.
pub proof fn lemma_subscribes_once_before_receiving(
    events: Seq<StreamEventView>,
    symbol: Seq<char>,
)
    ensures
        actions(
            StreamState::Connecting,
            seq![StreamEventView::Connected, StreamEventView::Subscribed] + events,
            symbol,
        ) == seq![
            StreamActionView::Subscribe(subscribe_text(symbol)),
            StreamActionView::Receive,
        ] + actions(StreamState::Receiving, events, symbol),
        forall|i: int|
            0 <= i < actions(StreamState::Receiving, events, symbol).len() ==> !(#[trigger] actions(
                StreamState::Receiving,
                events,
                symbol,
            )[i] is Subscribe),
{
    let all = seq![StreamEventView::Connected, StreamEventView::Subscribed] + events;
    let second = seq![StreamEventView::Subscribed] + events;
    let tail = actions(StreamState::Receiving, events, symbol);
    assert(all.drop_first() == second);
    assert(second.drop_first() == events);
    assert(actions(StreamState::Subscribing, second, symbol) == seq![StreamActionView::Receive]
        + tail);
    lemma_never_subscribes_again(StreamState::Receiving, events, symbol);
}

} // verus!
