//! The HTTP response of a request: the backend's answer, or the status
//! that stands for what went wrong.

use crate::envelope::{body_text, decode_reply, reply_model, GatewayError, NatsReponse};
use crate::pairs::{listing, pairs_view};
use crate::text::{lower_all, to_lower};
use vstd::prelude::*;

verus! {

/// The HTTP response that the caller gets.
#[derive(Clone, Debug, PartialEq, Eq)]
pub struct HttpResponse {
    pub status: u16,
    pub headers: Vec<(String, String)>,
    pub body: String,
}

/// What a response holds, as a mathematical value.
pub ghost struct ResponseView {
    pub status: u16,
    pub headers: Seq<(Seq<char>, Seq<char>)>,
    pub body: Seq<char>,
}

impl View for HttpResponse {
    type V = ResponseView;

    open spec fn view(&self) -> ResponseView {
        ResponseView { status: self.status, headers: pairs_view(self.headers@), body: self.body@ }
    }
}

/// The status with which the gateway answers where a request fails.
pub open spec fn failure_status(error: GatewayError) -> u16 {
    match error {
        GatewayError::Encoding => 400,
        GatewayError::Publish => 503,
        GatewayError::TimedOut => 504,
        GatewayError::MalformedReply => 502,
        GatewayError::DuplicateReply => 502,
    }
}

/// The response for a failed request: its status, no headers, no body.
pub open spec fn failure_view(error: GatewayError) -> ResponseView {
    ResponseView { status: failure_status(error), headers: Seq::empty(), body: Seq::empty() }
}

/// Whether a header of this name says what the body is.
pub open spec fn is_content_type(name: Seq<char>) -> bool {
    lower_all(name) == "content-type"@
}

/// The entries without those that say what the body is.
pub open spec fn passed_on(headers: Seq<(Seq<char>, Seq<char>)>) -> Seq<(Seq<char>, Seq<char>)>
    decreases headers.len(),
{
    if headers.len() == 0 {
        Seq::empty()
    } else if is_content_type(headers.last().0) {
        passed_on(headers.drop_last())
    } else {
        passed_on(headers.drop_last()).push(headers.last())
    }
}

/// The response for a reply: its status; its headers but for any content
/// type, and behind them, where there is a body, the content type of JSON;
/// and its body.
pub open spec fn response_of(
    status: u16,
    headers: Seq<(Seq<char>, Seq<char>)>,
    body: Seq<char>,
) -> ResponseView {
    ResponseView {
        status,
        headers: if body.len() > 0 {
            passed_on(headers).push(("content-type"@, "application/json"@))
        } else {
            passed_on(headers)
        },
        body,
    }
}

/// The response for the payload of a reply message: that of the reply, or
/// 502 where the payload is no reply.
pub open spec fn reply_response(payload: Seq<u8>) -> ResponseView {
    match reply_model(payload) {
        Some(reply) => response_of(reply.status, listing(reply.headers), body_text(reply.body)),
        None => failure_view(GatewayError::MalformedReply),
    }
}

/// The response for a failed request.
///
/// A body that is not JSON gives 400, a request that the bus did not take 503,
/// a reply that did not come in time 504, and a reply that cannot be read 502.
/// A duplicate reply is discarded and never answered; asked for, its status is
/// that of a reply that cannot be read.
pub fn failure(error: GatewayError) -> (r: HttpResponse)
    ensures
        r@ == failure_view(error),
{
    let status: u16 = match error {
        GatewayError::Encoding => 400,
        GatewayError::Publish => 503,
        GatewayError::TimedOut => 504,
        GatewayError::MalformedReply => 502,
        GatewayError::DuplicateReply => 502,
    };
    let r = HttpResponse { status, headers: Vec::new(), body: String::new() };
    assert(r@.headers =~= Seq::empty());
    r
}

/// The HTTP response for a reply.
///
/// Status and body are the reply's. The headers are the reply's, without any
/// `content-type`; where the body is not empty, `content-type:
/// application/json` follows them.
pub fn respond(reply: &NatsReponse) -> (r: HttpResponse)
    ensures
        r@ == response_of(reply.status_code, pairs_view(reply.headers@), reply.body@),
{
    let ghost all = pairs_view(reply.headers@);
    let mut headers: Vec<(String, String)> = Vec::new();
    let mut i: usize = 0;
    assert(pairs_view(headers@) =~= passed_on(all.subrange(0, 0)));
    while i < reply.headers.len()
        invariant
            i <= reply.headers.len(),
            all == pairs_view(reply.headers@),
            pairs_view(headers@) == passed_on(all.subrange(0, i as int)),
        decreases reply.headers.len() - i,
    {
        let ghost before = pairs_view(headers@);
        proof {
            assert(all.subrange(0, i + 1).drop_last() =~= all.subrange(0, i as int));
        }
        if to_lower(reply.headers[i].0.as_str()) != "content-type".to_owned() {
            headers.push((reply.headers[i].0.clone(), reply.headers[i].1.clone()));
            assert(pairs_view(headers@) =~= before.push(all[i as int]));
        }
        i = i + 1;
    }
    assert(all.subrange(0, i as int) =~= all);
    let body = reply.body.clone();
    if !body.as_str().is_empty() {
        let ghost before = pairs_view(headers@);
        headers.push(("content-type".to_owned(), "application/json".to_owned()));
        assert(pairs_view(headers@) =~= before.push(("content-type"@, "application/json"@)));
    }
    HttpResponse { status: reply.status_code, headers, body }
}

/// The HTTP response for the payload of a reply message: see
/// [`crate::envelope::decode_reply`] and [`respond`]. A payload that is no
/// reply gives 502.
pub fn answer(payload: &[u8]) -> (r: HttpResponse)
    ensures
        r@ == reply_response(payload@),
{
    match decode_reply(payload) {
        Ok(reply) => respond(&reply),
        Err(_) => failure(GatewayError::MalformedReply),
    }
}

} // verus!
