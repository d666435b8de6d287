//! What holds of every request, whatever the bus and the caller do: the laws
//! of the state machine in [`crate::gateway`].

use crate::dedup::{carried_key, dedup_key_of};
use crate::envelope::{body_json, reply_model, request_bytes, GatewayError};
use crate::gateway::{
    begun, lemma_begun_carries_key, step, ActionView, EventView, ExchangeView, RequestView,
};
use crate::response::failure_view;
use crate::subject::subject_of;
use crate::trace::TraceView;
use vstd::prelude::*;

verus! {

/// The state after a run of events.
pub open spec fn run(x: ExchangeView, events: Seq<EventView>) -> ExchangeView
    decreases events.len(),
{
    if events.len() == 0 {
        x
    } else {
        step(run(x, events.drop_last()), events.last()).0
    }
}

/// How many responses were handed out in a run of events.
pub open spec fn responses(x: ExchangeView, events: Seq<EventView>) -> nat
    decreases events.len(),
{
    if events.len() == 0 {
        0
    } else {
        responses(x, events.drop_last()) + (if step(
            run(x, events.drop_last()),
            events.last(),
        ).1 is Respond {
            1nat
        } else {
            0nat
        })
    }
}

/// The address of the reply channel, while the state holds it open.
pub open spec fn channel(x: ExchangeView) -> Option<Seq<char>> {
    match x {
        ExchangeView::Publishing { address, .. } => Some(address),
        ExchangeView::Awaiting { address } => Some(address),
        _ => None,
    }
}

/// Whether a reply was taken.
pub open spec fn answered(x: ExchangeView) -> bool {
    match x {
        ExchangeView::Closing { answered, .. } => answered,
        ExchangeView::Done { answered } => answered,
        _ => false,
    }
}

/// Whatever events come, in whatever order and however often, the caller is
/// handed one response at most; and once it has one, the request is over.
pub proof fn law_at_most_one_response(x: ExchangeView, events: Seq<EventView>)
    ensures
        responses(x, events) <= 1,
        responses(x, events) == 1 ==> run(x, events) is Done,
    decreases events.len(),
{
    if events.len() > 0 {
        law_at_most_one_response(x, events.drop_last());
    }
}

/// A request gets one response at most, the one it may get at once
/// included: a request that is answered when it begins is over, and no event
/// brings another response.
pub proof fn law_one_response_per_request(
    request: RequestView,
    trace: Option<TraceView>,
    deadline_ms: u64,
    fresh: Seq<char>,
    events: Seq<EventView>,
)
    ensures
        ({
            let (x, first) = begun(request, trace, deadline_ms, fresh);
            (if first is Respond {
                1nat
            } else {
                0nat
            }) + responses(x, events) <= 1
        }),
{
    let (x, first) = begun(request, trace, deadline_ms, fresh);
    if first is Respond {
        lemma_done_is_silent(x, events);
    } else {
        law_at_most_one_response(x, events);
    }
}

/// The first message on an open reply channel is taken as the reply. Once a
/// reply is taken, every further message is discarded as a duplicate and
/// changes nothing, whatever else has happened in between.
pub proof fn law_reply_is_taken_once(x: ExchangeView, e: EventView, payload: Seq<u8>)
    ensures
        channel(x) is Some ==> answered(step(x, EventView::Reply { payload }).0),
        answered(x) ==> answered(step(x, e).0),
        answered(x) ==> step(x, EventView::Reply { payload }) == (
            x,
            ActionView::Discard(GatewayError::DuplicateReply),
        ),
{
}

/// Where no reply comes before the deadline, the reply channel is closed, and
/// the caller then gets 504, once: the request is over.
pub proof fn law_timeout_gives_504(address: Seq<char>)
    ensures
        ({
            let waiting = ExchangeView::Awaiting { address };
            let closing = step(waiting, EventView::TimedOut);
            let over = step(closing.0, EventView::Closed);
            &&& closing.1 == ActionView::Close { address }
            &&& over.1 == ActionView::Respond(failure_view(GatewayError::TimedOut))
            &&& failure_view(GatewayError::TimedOut).status == 504
            &&& over.0 == ExchangeView::Done { answered: false }
            &&& forall|later: Seq<EventView>| responses(over.0, later) == 0
        }),
{
    let over = ExchangeView::Done { answered: false };
    assert forall|later: Seq<EventView>| responses(over, later) == 0 by {
        lemma_done_is_silent(over, later);
    }
}

/// A request that is over stays over, and no response comes from it.
pub proof fn lemma_done_is_silent(x: ExchangeView, events: Seq<EventView>)
    requires
        x is Done,
    ensures
        run(x, events) == x,
        responses(x, events) == 0,
    decreases events.len(),
{
    if events.len() > 0 {
        lemma_done_is_silent(x, events.drop_last());
    }
}

/// A reply that cannot be read closes the reply channel, and the caller then
/// gets 502.
pub proof fn law_malformed_reply_gives_502(address: Seq<char>, payload: Seq<u8>)
    requires
        reply_model(payload) is None,
    ensures
        ({
            let waiting = ExchangeView::Awaiting { address };
            let closing = step(waiting, EventView::Reply { payload });
            let over = step(closing.0, EventView::Closed);
            &&& closing.1 == ActionView::Close { address }
            &&& over.1 == ActionView::Respond(failure_view(GatewayError::MalformedReply))
            &&& failure_view(GatewayError::MalformedReply).status == 502
            &&& over.0 is Done
        }),
{
}

/// Reporting that the channel is closed a second time changes nothing and
/// asks for nothing.
pub proof fn law_close_is_idempotent(x: ExchangeView)
    ensures
        ({
            let once = step(x, EventView::Closed).0;
            step(once, EventView::Closed) == (once, ActionView::Nothing)
        }),
{
}

/// The reply channel is closed on every way out. A state that holds the
/// channel open is left only for one that still does, or with the request to
/// close it; a channel that was opened in vain is closed at once; the
/// request ends, with a response or without, only from a state that holds no
/// open channel; and no state holds open what it has just asked to close.
pub proof fn law_channel_is_closed_on_every_path(x: ExchangeView, e: EventView)
    ensures
        ({
            let (next, action) = step(x, e);
            &&& channel(x) is Some ==> channel(next) == channel(x) || action == (ActionView::Close {
                address: channel(x)->0,
            })
            &&& (x is Listening && e is Opened) ==> channel(next) == Some(e->Opened_address)
                || action == (ActionView::Close { address: e->Opened_address })
            &&& (action is Respond || action is Abandon) ==> channel(x) is None && next is Done
            &&& action is Close ==> channel(next) != Some(action->Close_address)
        }),
{
}

/// Nothing is published before the reply channel is open: a request is
/// published only on the report that its channel is subscribed, and with the
/// address of that channel as its reply address.
pub proof fn law_subscribe_before_publish(x: ExchangeView, e: EventView)
    ensures
        step(x, e).1 is Publish ==> x is Listening && e == (EventView::Opened {
            address: step(x, e).1->Publish_reply_to,
        }) && channel(step(x, e).0) == Some(step(x, e).1->Publish_reply_to),
{
}

/// A request whose body is not JSON is answered with 400 at once: no channel
/// is opened and nothing is published.
pub proof fn law_bad_body_gives_400(
    request: RequestView,
    trace: Option<TraceView>,
    deadline_ms: u64,
    fresh: Seq<char>,
)
    requires
        body_json(request.body) is None,
    ensures
        begun(request, trace, deadline_ms, fresh) == (
            ExchangeView::Done { answered: false },
            ActionView::Respond(failure_view(GatewayError::Encoding)),
        ),
        failure_view(GatewayError::Encoding).status == 400,
{
}

/// The reply addresses that are subscribed after a run of events: each
/// address that the caller reported as opened, until it is asked to close it.
pub open spec fn subscribed(x: ExchangeView, events: Seq<EventView>) -> Set<Seq<char>>
    decreases events.len(),
{
    if events.len() == 0 {
        Set::empty()
    } else {
        let before = subscribed(x, events.drop_last());
        let opened = match events.last() {
            EventView::Opened { address } => before.insert(address),
            _ => before,
        };
        match step(run(x, events.drop_last()), events.last()).1 {
            ActionView::Close { address } => opened.remove(address),
            _ => opened,
        }
    }
}

/// The addresses that a state holds open: that of its channel, or none.
pub open spec fn held(x: ExchangeView) -> Set<Seq<char>> {
    match channel(x) {
        Some(address) => Set::empty().insert(address),
        None => Set::empty(),
    }
}

/// No subscription lingers. Whatever the caller reports, in whatever order,
/// the only address that stays subscribed for a request is the one that its
/// state holds open: every other address that is reported as opened is
/// closed again at once. So when the request is over, whichever way it went,
/// no address is subscribed any more.
pub proof fn law_no_subscription_lingers(x: ExchangeView, events: Seq<EventView>)
    requires
        channel(x) is None,
    ensures
        subscribed(x, events) == held(run(x, events)),
        run(x, events) is Done ==> subscribed(x, events) == Set::<Seq<char>>::empty(),
    decreases events.len(),
{
    if events.len() > 0 {
        law_no_subscription_lingers(x, events.drop_last());
        assert(subscribed(x, events) =~= held(run(x, events)));
    }
}

/// Closing is local. A step that asks to close an address leaves that
/// address unsubscribed and every other address as it was: subscribed if it
/// was before, or if it is the one that the step's event reports as opened.
pub proof fn law_close_is_local(x: ExchangeView, events: Seq<EventView>, e: EventView)
    ensures
        ({
            let action = step(run(x, events), e).1;
            let before = subscribed(x, events);
            let after = subscribed(x, events.push(e));
            action is Close ==> !after.contains(action->Close_address) && forall|
                other: Seq<char>,
            |
                other != action->Close_address ==> (#[trigger] after.contains(other)) == (
                before.contains(other) || e == (EventView::Opened { address: other }))
        }),
{
    assert(events.push(e).drop_last() =~= events);
}

/// No request leaves a subscription behind: however a request that was
/// begun goes on, only the address that its state holds open is subscribed,
/// and none is when the request is over.
pub proof fn law_request_leaves_no_subscription(
    request: RequestView,
    trace: Option<TraceView>,
    deadline_ms: u64,
    fresh: Seq<char>,
    events: Seq<EventView>,
)
    ensures
        ({
            let x = begun(request, trace, deadline_ms, fresh).0;
            &&& subscribed(x, events) == held(run(x, events))
            &&& run(x, events) is Done ==> subscribed(x, events) == Set::<Seq<char>>::empty()
        }),
{
    law_no_subscription_lingers(begun(request, trace, deadline_ms, fresh).0, events);
}

/// How often a request was published in a run of events.
pub open spec fn publishes(x: ExchangeView, events: Seq<EventView>) -> nat
    decreases events.len(),
{
    if events.len() == 0 {
        0
    } else {
        publishes(x, events.drop_last()) + (if step(
            run(x, events.drop_last()),
            events.last(),
        ).1 is Publish {
            1nat
        } else {
            0nat
        })
    }
}

/// A request is published once at most: nothing is published again, whatever
/// is reported of the first attempt.
pub proof fn law_at_most_one_publish(x: ExchangeView, events: Seq<EventView>)
    ensures
        publishes(x, events) <= 1,
        publishes(x, events) == 1 ==> !(run(x, events) is Listening),
    decreases events.len(),
{
    if events.len() > 0 {
        law_at_most_one_publish(x, events.drop_last());
    }
}

/// A request that is still to be opened is as it began.
pub proof fn lemma_listening_is_kept(x: ExchangeView, events: Seq<EventView>)
    ensures
        run(x, events) is Listening ==> run(x, events) == x,
    decreases events.len(),
{
    if events.len() > 0 {
        lemma_listening_is_kept(x, events.drop_last());
    }
}

/// What is published is the request as it began. Whenever a step of a
/// request asks to publish, its event is the report that the reply channel
/// is open; the reply address is that channel's; the subject is the one that
/// method and path map to; the payload is the envelope of the request's
/// headers, query parameters and body with that reply address in it; and the
/// metadata carries the request's deduplication key, which is not empty
/// where `fresh` is not.
pub proof fn law_request_is_published_as_begun(
    request: RequestView,
    trace: Option<TraceView>,
    deadline_ms: u64,
    fresh: Seq<char>,
    events: Seq<EventView>,
    e: EventView,
)
    ensures
        ({
            let x = begun(request, trace, deadline_ms, fresh).0;
            step(run(x, events), e).1 matches ActionView::Publish {
                subject,
                reply_to,
                payload,
                metadata,
            } ==> {
                &&& e == (EventView::Opened { address: reply_to })
                &&& subject == subject_of(request.method, request.path)
                &&& request_bytes(reply_to, request.headers, request.query, request.body) == Some(
                    payload,
                )
                &&& carried_key(metadata) == Some(dedup_key_of(request.headers, fresh))
                &&& fresh.len() > 0 ==> dedup_key_of(request.headers, fresh).len() > 0
            }
        }),
{
    let x = begun(request, trace, deadline_ms, fresh).0;
    lemma_listening_is_kept(x, events);
    lemma_begun_carries_key(request, trace, deadline_ms, fresh);
}

} // verus!
