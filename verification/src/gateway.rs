//! The course of one request through the gateway, as a state machine.
//!
//! The caller owns sockets, subscriptions and timers. It starts an
//! [`Exchange`] with [`begin`], performs the [`Action`] it is handed, and
//! reports what came of it to [`handler`] as an [`Event`], until the action is
//! [`Action::Respond`] or [`Action::Abandon`]. What holds of every such course
//! is stated in [`crate::protocol`].

use crate::dedup::{carried_key, dedup_key, dedup_key_of, fresh_token, is_token};
use crate::envelope::{body_json, encode_request, is_json_body, request_bytes, GatewayError};
use crate::pairs::pairs_view;
use crate::response::{
    answer, failure, failure_view, reply_response, HttpResponse, ResponseView,
};
use crate::subject::{create_subject, subject_of};
use crate::trace::{inject, injected, lemma_position, Metadata, TraceContext, TraceView};
use vstd::prelude::*;

verus! {

/// An inbound HTTP request, as the listener decoded it.
#[derive(Clone, Debug, PartialEq, Eq)]
pub struct HttpRequest {
    pub method: String,
    pub path: String,
    pub headers: Vec<(String, String)>,
    pub query_parameters: Vec<(String, String)>,
    pub body: String,
}

/// What an inbound request holds, as a mathematical value.
pub ghost struct RequestView {
    pub method: Seq<char>,
    pub path: Seq<char>,
    pub headers: Seq<(Seq<char>, Seq<char>)>,
    pub query: Seq<(Seq<char>, Seq<char>)>,
    pub body: Seq<char>,
}

impl View for HttpRequest {
    type V = RequestView;

    open spec fn view(&self) -> RequestView {
        RequestView {
            method: self.method@,
            path: self.path@,
            headers: pairs_view(self.headers@),
            query: pairs_view(self.query_parameters@),
            body: self.body@,
        }
    }
}

/// Where one request stands.
#[derive(Clone, Debug, PartialEq, Eq)]
pub enum Exchange {
    /// The request is prepared; the reply channel is being opened.
    Listening {
        subject: String,
        headers: Vec<(String, String)>,
        query_parameters: Vec<(String, String)>,
        body: String,
        metadata: Metadata,
        deadline_ms: u64,
    },
    /// The reply channel is open at `address`; the request is being published.
    Publishing { address: String, deadline_ms: u64 },
    /// The request is published; the reply is awaited.
    Awaiting { address: String },
    /// The reply channel is being closed; `outcome` is what the caller gets
    /// then, if it still waits. `answered` says that a reply was taken.
    Closing { outcome: Option<HttpResponse>, answered: bool },
    /// The request is over.
    Done { answered: bool },
}

/// What the caller reports.
#[derive(Clone, Debug, PartialEq, Eq)]
pub enum Event {
    /// The reply channel is subscribed at `address`.
    Opened { address: String },
    /// The reply channel could not be opened.
    OpenFailed,
    /// The bus took the request.
    Published,
    /// The bus did not take the request.
    PublishFailed,
    /// A message came on the reply channel.
    Reply { payload: Vec<u8> },
    /// The deadline passed without a message.
    TimedOut,
    /// The inbound connection is gone. A caller that reports this while it
    /// is still opening the reply channel either gives the opening up or
    /// reports `Opened` when it is done, and is then asked to close it.
    Cancelled,
    /// The reply channel is unsubscribed.
    Closed,
}

/// What the caller is to do next.
#[derive(Clone, Debug, PartialEq, Eq)]
pub enum Action {
    /// Allocate a reply address and subscribe to it; report `Opened` or
    /// `OpenFailed`.
    Open,
    /// Publish `payload` on `subject` with the reply address and the
    /// metadata; report `Published` or `PublishFailed`.
    Publish { subject: String, reply_to: String, payload: Vec<u8>, metadata: Metadata },
    /// Wait for one message on the reply channel, `millis` milliseconds at
    /// most; report `Reply` or `TimedOut`.
    Await { millis: u64 },
    /// Unsubscribe from `address`; report `Closed`. This is asked for the
    /// reply channel of the request when the wait is over, and for any
    /// address that is reported as opened when the request has no use for it.
    Close { address: String },
    /// Hand the response to the caller. The request is over.
    Respond(HttpResponse),
    /// The caller is gone: end without a response. The request is over. An
    /// opening that is still under way is to be given up, or reported as
    /// `Opened` when it is done, so that it is closed again.
    Abandon,
    /// Drop the message that was reported, and log why.
    Discard(GatewayError),
    /// The event asks for nothing.
    Nothing,
}

/// The state of a request, as a mathematical value.
pub ghost enum ExchangeView {
    Listening {
        subject: Seq<char>,
        headers: Seq<(Seq<char>, Seq<char>)>,
        query: Seq<(Seq<char>, Seq<char>)>,
        body: Seq<char>,
        metadata: Seq<(Seq<char>, Seq<char>)>,
        deadline_ms: u64,
    },
    Publishing { address: Seq<char>, deadline_ms: u64 },
    Awaiting { address: Seq<char> },
    Closing { outcome: Option<ResponseView>, answered: bool },
    Done { answered: bool },
}

/// An event, as a mathematical value.
pub ghost enum EventView {
    Opened { address: Seq<char> },
    OpenFailed,
    Published,
    PublishFailed,
    Reply { payload: Seq<u8> },
    TimedOut,
    Cancelled,
    Closed,
}

/// An action, as a mathematical value.
pub ghost enum ActionView {
    Open,
    Publish {
        subject: Seq<char>,
        reply_to: Seq<char>,
        payload: Seq<u8>,
        metadata: Seq<(Seq<char>, Seq<char>)>,
    },
    Await { millis: u64 },
    Close { address: Seq<char> },
    Respond(ResponseView),
    Abandon,
    Discard(GatewayError),
    Nothing,
}

/// The value of an optional response.
pub open spec fn outcome_view(outcome: Option<HttpResponse>) -> Option<ResponseView> {
    match outcome {
        Some(r) => Some(r@),
        None => None,
    }
}

/// The value of an optional trace context.
pub open spec fn trace_view(trace: Option<TraceContext>) -> Option<TraceView> {
    match trace {
        Some(t) => Some(t@),
        None => None,
    }
}

impl View for Exchange {
    type V = ExchangeView;

    open spec fn view(&self) -> ExchangeView {
        match *self {
            Exchange::Listening {
                subject,
                headers,
                query_parameters,
                body,
                metadata,
                deadline_ms,
            } => ExchangeView::Listening {
                subject: subject@,
                headers: pairs_view(headers@),
                query: pairs_view(query_parameters@),
                body: body@,
                metadata: metadata@,
                deadline_ms,
            },
            Exchange::Publishing { address, deadline_ms } => ExchangeView::Publishing {
                address: address@,
                deadline_ms,
            },
            Exchange::Awaiting { address } => ExchangeView::Awaiting { address: address@ },
            Exchange::Closing { outcome, answered } => ExchangeView::Closing {
                outcome: outcome_view(outcome),
                answered,
            },
            Exchange::Done { answered } => ExchangeView::Done { answered },
        }
    }
}

impl View for Event {
    type V = EventView;

    open spec fn view(&self) -> EventView {
        match *self {
            Event::Opened { address } => EventView::Opened { address: address@ },
            Event::OpenFailed => EventView::OpenFailed,
            Event::Published => EventView::Published,
            Event::PublishFailed => EventView::PublishFailed,
            Event::Reply { payload } => EventView::Reply { payload: payload@ },
            Event::TimedOut => EventView::TimedOut,
            Event::Cancelled => EventView::Cancelled,
            Event::Closed => EventView::Closed,
        }
    }
}

impl View for Action {
    type V = ActionView;

    open spec fn view(&self) -> ActionView {
        match *self {
            Action::Open => ActionView::Open,
            Action::Publish { subject, reply_to, payload, metadata } => ActionView::Publish {
                subject: subject@,
                reply_to: reply_to@,
                payload: payload@,
                metadata: metadata@,
            },
            Action::Await { millis } => ActionView::Await { millis },
            Action::Close { address } => ActionView::Close { address: address@ },
            Action::Respond(r) => ActionView::Respond(r@),
            Action::Abandon => ActionView::Abandon,
            Action::Discard(error) => ActionView::Discard(error),
            Action::Nothing => ActionView::Nothing,
        }
    }
}

/// What is done with a message that comes when none is awaited: the duplicate
/// of a reply that was taken is discarded as such; any other asks for nothing.
pub open spec fn unawaited(answered: bool) -> ActionView {
    if answered {
        ActionView::Discard(GatewayError::DuplicateReply)
    } else {
        ActionView::Nothing
    }
}

/// What is done with an address that is reported as opened when the request
/// is past its opening: it is to be closed again, unless it is the address
/// that the request holds open, reported once more.
pub open spec fn stray(held: Option<Seq<char>>, opened: Seq<char>) -> ActionView {
    if held == Some(opened) {
        ActionView::Nothing
    } else {
        ActionView::Close { address: opened }
    }
}

/// The state that follows `x` on event `e`, and the action that the caller
/// is asked for.
pub open spec fn step(x: ExchangeView, e: EventView) -> (ExchangeView, ActionView) {
    match x {
        ExchangeView::Listening {
            subject,
            headers,
            query,
            body,
            metadata,
            deadline_ms,
        } => match e {
            EventView::Opened { address } => match request_bytes(address, headers, query, body) {
                Some(payload) => (
                    ExchangeView::Publishing { address, deadline_ms },
                    ActionView::Publish { subject, reply_to: address, payload, metadata },
                ),
                None => (
                    ExchangeView::Closing {
                        outcome: Some(failure_view(GatewayError::Encoding)),
                        answered: false,
                    },
                    ActionView::Close { address },
                ),
            },
            EventView::OpenFailed => (
                ExchangeView::Done { answered: false },
                ActionView::Respond(failure_view(GatewayError::Publish)),
            ),
            EventView::Cancelled => (ExchangeView::Done { answered: false }, ActionView::Abandon),
            _ => (x, ActionView::Nothing),
        },
        ExchangeView::Publishing { address, deadline_ms } => match e {
            EventView::Published => (
                ExchangeView::Awaiting { address },
                ActionView::Await { millis: deadline_ms },
            ),
            EventView::PublishFailed => (
                ExchangeView::Closing {
                    outcome: Some(failure_view(GatewayError::Publish)),
                    answered: false,
                },
                ActionView::Close { address },
            ),
            EventView::Reply { payload } => (
                ExchangeView::Closing { outcome: Some(reply_response(payload)), answered: true },
                ActionView::Close { address },
            ),
            EventView::Cancelled => (
                ExchangeView::Closing { outcome: None, answered: false },
                ActionView::Close { address },
            ),
            EventView::Opened { address: other } => (x, stray(Some(address), other)),
            _ => (x, ActionView::Nothing),
        },
        ExchangeView::Awaiting { address } => match e {
            EventView::Reply { payload } => (
                ExchangeView::Closing { outcome: Some(reply_response(payload)), answered: true },
                ActionView::Close { address },
            ),
            EventView::TimedOut => (
                ExchangeView::Closing {
                    outcome: Some(failure_view(GatewayError::TimedOut)),
                    answered: false,
                },
                ActionView::Close { address },
            ),
            EventView::Cancelled => (
                ExchangeView::Closing { outcome: None, answered: false },
                ActionView::Close { address },
            ),
            EventView::Opened { address: other } => (x, stray(Some(address), other)),
            _ => (x, ActionView::Nothing),
        },
        ExchangeView::Closing { outcome, answered } => match e {
            EventView::Closed => (
                ExchangeView::Done { answered },
                match outcome {
                    Some(response) => ActionView::Respond(response),
                    None => ActionView::Abandon,
                },
            ),
            EventView::Cancelled => (
                ExchangeView::Closing { outcome: None, answered },
                ActionView::Nothing,
            ),
            EventView::Reply { payload } => (x, unawaited(answered)),
            EventView::Opened { address } => (x, stray(None, address)),
            _ => (x, ActionView::Nothing),
        },
        ExchangeView::Done { answered } => match e {
            EventView::Reply { payload } => (x, unawaited(answered)),
            EventView::Opened { address } => (x, stray(None, address)),
            _ => (x, ActionView::Nothing),
        },
    }
}

/// The action for an address that is reported as opened while the request
/// holds `held` open.
fn close_stray(held: &String, opened: String) -> (a: Action)
    ensures
        a@ == stray(Some(held@), opened@),
{
    if *held == opened {
        Action::Nothing
    } else {
        Action::Close { address: opened }
    }
}

/// The action for a message that comes when none is awaited.
fn drop_message(answered: bool) -> (a: Action)
    ensures
        a@ == unawaited(answered),
{
    if answered {
        Action::Discard(GatewayError::DuplicateReply)
    } else {
        Action::Nothing
    }
}

/// Takes one event of one request: gives the state that follows and the
/// action that the caller is to perform next.
///
/// The reply channel is opened before anything is published. A reply is taken
/// once: the first message that comes after the channel is open decides the
/// response, and each later one is discarded. Whatever ends the wait (a
/// reply, the deadline, a failed publish, a caller that went away), the
/// channel is closed first, and only then is the response handed out. An
/// address that is reported as opened when the request is past its opening
/// is to be closed again. Any other event that the state does not expect
/// changes nothing.
pub fn handler(exchange: Exchange, event: Event) -> (r: (Exchange, Action))
    ensures
        r.0@ == step(exchange@, event@).0,
        r.1@ == step(exchange@, event@).1,
{
    match exchange {
        Exchange::Listening { subject, headers, query_parameters, body, metadata, deadline_ms } => {
            match event {
                Event::Opened { address } => {
                    match encode_request(
                        address.as_str(),
                        &headers,
                        &query_parameters,
                        body.as_str(),
                    ) {
                        Ok(payload) => (
                            Exchange::Publishing { address: address.clone(), deadline_ms },
                            Action::Publish { subject, reply_to: address, payload, metadata },
                        ),
                        Err(_) => (
                            Exchange::Closing {
                                outcome: Some(failure(GatewayError::Encoding)),
                                answered: false,
                            },
                            Action::Close { address },
                        ),
                    }
                },
                Event::OpenFailed => (
                    Exchange::Done { answered: false },
                    Action::Respond(failure(GatewayError::Publish)),
                ),
                Event::Cancelled => (Exchange::Done { answered: false }, Action::Abandon),
                _ => (
                    Exchange::Listening {
                        subject,
                        headers,
                        query_parameters,
                        body,
                        metadata,
                        deadline_ms,
                    },
                    Action::Nothing,
                ),
            }
        },
        Exchange::Publishing { address, deadline_ms } => match event {
            Event::Published => (
                Exchange::Awaiting { address },
                Action::Await { millis: deadline_ms },
            ),
            Event::PublishFailed => (
                Exchange::Closing {
                    outcome: Some(failure(GatewayError::Publish)),
                    answered: false,
                },
                Action::Close { address },
            ),
            Event::Reply { payload } => (
                Exchange::Closing { outcome: Some(answer(payload.as_slice())), answered: true },
                Action::Close { address },
            ),
            Event::Cancelled => (
                Exchange::Closing { outcome: None, answered: false },
                Action::Close { address },
            ),
            Event::Opened { address: other } => {
                let action = close_stray(&address, other);
                (Exchange::Publishing { address, deadline_ms }, action)
            },
            _ => (Exchange::Publishing { address, deadline_ms }, Action::Nothing),
        },
        Exchange::Awaiting { address } => match event {
            Event::Reply { payload } => (
                Exchange::Closing { outcome: Some(answer(payload.as_slice())), answered: true },
                Action::Close { address },
            ),
            Event::TimedOut => (
                Exchange::Closing {
                    outcome: Some(failure(GatewayError::TimedOut)),
                    answered: false,
                },
                Action::Close { address },
            ),
            Event::Cancelled => (
                Exchange::Closing { outcome: None, answered: false },
                Action::Close { address },
            ),
            Event::Opened { address: other } => {
                let action = close_stray(&address, other);
                (Exchange::Awaiting { address }, action)
            },
            _ => (Exchange::Awaiting { address }, Action::Nothing),
        },
        Exchange::Closing { outcome, answered } => match event {
            Event::Closed => match outcome {
                Some(response) => (Exchange::Done { answered }, Action::Respond(response)),
                None => (Exchange::Done { answered }, Action::Abandon),
            },
            Event::Cancelled => (Exchange::Closing { outcome: None, answered }, Action::Nothing),
            Event::Reply { payload } => (
                Exchange::Closing { outcome, answered },
                drop_message(answered),
            ),
            Event::Opened { address } => (
                Exchange::Closing { outcome, answered },
                Action::Close { address },
            ),
            _ => (Exchange::Closing { outcome, answered }, Action::Nothing),
        },
        Exchange::Done { answered } => match event {
            Event::Reply { payload } => (Exchange::Done { answered }, drop_message(answered)),
            Event::Opened { address } => (Exchange::Done { answered }, Action::Close { address }),
            _ => (Exchange::Done { answered }, Action::Nothing),
        },
    }
}

/// The state in which a request starts, and the first action. A request
/// whose body is not JSON is answered at once with 400: no channel is opened
/// and nothing is published. Any other is prepared: its subject is mapped, and
/// its metadata holds the deduplication key as `Nats-Msg-Id` and the caller's
/// trace context; then the reply channel is to be opened.
pub open spec fn begun(
    request: RequestView,
    trace: Option<TraceView>,
    deadline_ms: u64,
    fresh: Seq<char>,
) -> (ExchangeView, ActionView) {
    if body_json(request.body) is None {
        (
            ExchangeView::Done { answered: false },
            ActionView::Respond(failure_view(GatewayError::Encoding)),
        )
    } else {
        (
            ExchangeView::Listening {
                subject: subject_of(request.method, request.path),
                headers: request.headers,
                query: request.query,
                body: request.body,
                metadata: injected(
                    trace,
                    seq![("Nats-Msg-Id"@, dedup_key_of(request.headers, fresh))],
                ),
                deadline_ms,
            },
            ActionView::Open,
        )
    }
}

/// The metadata of a request that was begun carries its deduplication key,
/// whether or not a trace context was injected; and the key is not empty
/// where `fresh` is not.
pub proof fn lemma_begun_carries_key(
    request: RequestView,
    trace: Option<TraceView>,
    deadline_ms: u64,
    fresh: Seq<char>,
)
    ensures
        begun(request, trace, deadline_ms, fresh).0 matches ExchangeView::Listening {
            metadata,
            ..
        } ==> carried_key(metadata) == Some(dedup_key_of(request.headers, fresh)),
        fresh.len() > 0 ==> dedup_key_of(request.headers, fresh).len() > 0,
{
    reveal_strlit("Nats-Msg-Id");
    reveal_strlit("traceparent");
    let key = dedup_key_of(request.headers, fresh);
    let alone = seq![("Nats-Msg-Id"@, key)];
    assert("Nats-Msg-Id"@[0] != "traceparent"@[0]);
    lemma_position(alone, "Nats-Msg-Id"@, 0);
    lemma_position(alone, "traceparent"@, 1);
    lemma_position(injected(trace, alone), "Nats-Msg-Id"@, 0);
}

/// Starts the exchange for a request, with `fresh` as the deduplication key
/// of a request that brings none, or an empty one: see [`begun`]. The key
/// that the metadata carries is not empty, unless `fresh` is.
pub fn begin_with(
    request: HttpRequest,
    trace: Option<TraceContext>,
    deadline_ms: u64,
    fresh: String,
) -> (r: (Exchange, Action))
    ensures
        r.0@ == begun(request@, trace_view(trace), deadline_ms, fresh@).0,
        r.1@ == begun(request@, trace_view(trace), deadline_ms, fresh@).1,
        r.0 matches Exchange::Listening { metadata, .. } ==> metadata.well_formed()
            && carried_key(metadata@) == Some(dedup_key_of(request@.headers, fresh@)),
        fresh@.len() > 0 ==> dedup_key_of(request@.headers, fresh@).len() > 0,
{
    if !is_json_body(request.body.as_str()) {
        return (
            Exchange::Done { answered: false },
            Action::Respond(failure(GatewayError::Encoding)),
        );
    }
    let subject = create_subject(request.method.as_str(), request.path.as_str());
    let mut metadata = Metadata::new();
    metadata.set("Nats-Msg-Id".to_owned(), dedup_key(&request.headers, fresh));
    assert(metadata@ =~= seq![("Nats-Msg-Id"@, dedup_key_of(request@.headers, fresh@))]);
    inject(&trace, &mut metadata);
    proof {
        lemma_begun_carries_key(request@, trace_view(trace), deadline_ms, fresh@);
    }
    (
        Exchange::Listening {
            subject,
            headers: request.headers,
            query_parameters: request.query_parameters,
            body: request.body,
            metadata,
            deadline_ms,
        },
        Action::Open,
    )
}

/// Starts the exchange for a request: as [`begin_with`], with a token that
/// is generated here for a request that brings no `x-request-id`, or an
/// empty one. The deduplication key that the metadata carries is never empty.
pub fn begin(request: HttpRequest, trace: Option<TraceContext>, deadline_ms: u64) -> (r: (
    Exchange,
    Action,
))
    ensures
        exists|fresh: Seq<char>|
            is_token(fresh) && r.0@ == (#[trigger] begun(
                request@,
                trace_view(trace),
                deadline_ms,
                fresh,
            )).0 && r.1@ == begun(request@, trace_view(trace), deadline_ms, fresh).1,
        r.0 matches Exchange::Listening { metadata, .. } ==> metadata.well_formed()
            && carried_key(metadata@) is Some && carried_key(metadata@)->0.len() > 0,
{
    let fresh = fresh_token();
    let ghost token = fresh@;
    let r = begin_with(request, trace, deadline_ms, fresh);
    assert(r.0@ == begun(request@, trace_view(trace), deadline_ms, token).0);
    r
}

} // verus!
