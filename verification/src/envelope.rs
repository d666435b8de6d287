//! The envelopes that travel over the bus: the request that the gateway
//! publishes and the reply that a backend sends back.

use crate::json::{
    as_object, as_text, as_unsigned, json_bytes, json_of, json_parse, json_text, member, members,
    members_of, new_object, object, parse, print, set_member, string, text, text_lt,
    Json, JsonNumber,
};
use crate::pairs::{lemma_listing_unique, listing, lists, lowered, pairs_map, pairs_view};
use crate::text::to_lower;
use vstd::prelude::*;

verus! {

/// Why a request did not end in the backend's own answer.
#[derive(Clone, Copy, Debug, PartialEq, Eq, Structural)]
pub enum GatewayError {
    /// The inbound body is not JSON, or the envelope could not be written.
    Encoding,
    /// The bus did not take the request.
    Publish,
    /// No reply came before the deadline.
    TimedOut,
    /// The reply is not JSON, or not a reply envelope.
    MalformedReply,
    /// A further message came for a request that was already answered.
    DuplicateReply,
}

/// The envelope that is published for one inbound request.
#[derive(Clone, Debug, PartialEq, Eq)]
pub struct NatsRequest {
    /// The address on which the reply is awaited.
    pub origin_reply_to: String,
    /// The request's headers, one entry per name.
    pub headers: Vec<(String, String)>,
    /// The parameters of the query string.
    pub query_parameters: Vec<(String, String)>,
    /// The body, as JSON text.
    pub body: String,
}

/// The envelope that a backend replies with.
#[derive(Clone, Debug, PartialEq, Eq)]
pub struct NatsReponse {
    /// The headers of the reply, ordered by name, one entry per name.
    pub headers: Vec<(String, String)>,
    /// The body of the HTTP response: empty where the reply's body is the
    /// empty object, else the reply's body as compact JSON text.
    pub body: String,
    /// The HTTP status, from 100 to 599.
    pub status_code: u16,
}

impl NatsReponse {
    /// Whether the reply is in order: its status is one of HTTP, and its
    /// headers stand in the order of their names, one entry per name.
    pub open spec fn well_formed(&self) -> bool {
        &&& 100 <= self.status_code <= 599
        &&& forall|i: int, j: int|
            0 <= i < j < self.headers@.len() ==> text_lt(
                #[trigger] pairs_view(self.headers@)[i].0,
                #[trigger] pairs_view(self.headers@)[j].0,
            )
    }
}

/// The members of the JSON object that writes a map of texts.
pub open spec fn text_members(m: Map<Seq<char>, Seq<char>>) -> Map<Seq<char>, Json> {
    Map::new(|name: Seq<char>| m.contains_key(name), |name: Seq<char>| Json::Text(m[name]))
}

/// The map of texts that the members of a JSON object write, where each of
/// them is a string.
pub open spec fn text_values(members: Map<Seq<char>, Json>) -> Option<Map<Seq<char>, Seq<char>>> {
    if forall|name: Seq<char>| members.contains_key(name) ==> (#[trigger] members[name]) is Text {
        Some(
            Map::new(
                |name: Seq<char>| members.contains_key(name),
                |name: Seq<char>| members[name]->Text_0,
            ),
        )
    } else {
        None
    }
}

/// The JSON object without members.
pub open spec fn empty_object() -> Json {
    Json::Object(Map::empty())
}

/// The document that an inbound body stands for: the empty object where
/// there is no body, else what the body parses to, if it does.
pub open spec fn body_json(body: Seq<char>) -> Option<Json> {
    if body.len() == 0 {
        Some(empty_object())
    } else {
        json_parse(vstd::utf8::encode_utf8(body))
    }
}

/// What a request envelope holds, as a mathematical value.
pub ghost struct RequestModel {
    pub reply_to: Seq<char>,
    pub headers: Map<Seq<char>, Seq<char>>,
    pub query: Map<Seq<char>, Seq<char>>,
    pub body: Json,
}

/// The JSON document of a request envelope.
pub open spec fn request_json(e: RequestModel) -> Json {
    Json::Object(
        Map::empty().insert("originReplyTo"@, Json::Text(e.reply_to)).insert(
            "headers"@,
            Json::Object(text_members(e.headers)),
        ).insert("queryParameters"@, Json::Object(text_members(e.query))).insert("body"@, e.body),
    )
}

/// The envelope that is built for a request: header names in lower case, and
/// the empty object for a missing body. Nothing where the body is not JSON.
pub open spec fn request_model(
    reply_to: Seq<char>,
    headers: Seq<(Seq<char>, Seq<char>)>,
    query: Seq<(Seq<char>, Seq<char>)>,
    body: Seq<char>,
) -> Option<RequestModel> {
    match body_json(body) {
        Some(b) => Some(
            RequestModel {
                reply_to,
                headers: pairs_map(lowered(headers)),
                query: pairs_map(query),
                body: b,
            },
        ),
        None => None,
    }
}

/// The bytes of the envelope that is published for a request, or nothing
/// where the body is not JSON or the envelope cannot be written.
pub open spec fn request_bytes(
    reply_to: Seq<char>,
    headers: Seq<(Seq<char>, Seq<char>)>,
    query: Seq<(Seq<char>, Seq<char>)>,
    body: Seq<char>,
) -> Option<Seq<u8>> {
    match request_model(reply_to, headers, query, body) {
        Some(e) => json_bytes(request_json(e)),
        None => None,
    }
}

/// A JSON object whose members are the given pairs, each value a string. With
/// `lower_names`, each name is put in lower case first.
fn text_object(pairs: &Vec<(String, String)>, lower_names: bool) -> (v: serde_json::Value)
    ensures
        json_of(v) == Json::Object(
            text_members(
                pairs_map(
                    if lower_names {
                        lowered(pairs_view(pairs@))
                    } else {
                        pairs_view(pairs@)
                    },
                ),
            ),
        ),
{
    let ghost all = if lower_names {
        lowered(pairs_view(pairs@))
    } else {
        pairs_view(pairs@)
    };
    let mut m = new_object();
    let mut i: usize = 0;
    assert(members_of(m) =~= text_members(pairs_map(all.subrange(0, 0))));
    while i < pairs.len()
        invariant
            i <= pairs.len(),
            all.len() == pairs.len(),
            all == if lower_names {
                lowered(pairs_view(pairs@))
            } else {
                pairs_view(pairs@)
            },
            members_of(m) == text_members(pairs_map(all.subrange(0, i as int))),
        decreases pairs.len() - i,
    {
        let name = if lower_names {
            to_lower(pairs[i].0.as_str())
        } else {
            pairs[i].0.clone()
        };
        let value = pairs[i].1.clone();
        proof {
            let next = all.subrange(0, i + 1);
            assert(next.drop_last() =~= all.subrange(0, i as int));
            assert(next.last() == (name@, value@));
            assert(text_members(pairs_map(next)) =~= text_members(
                pairs_map(all.subrange(0, i as int)),
            ).insert(name@, Json::Text(value@)));
        }
        let _ = set_member(&mut m, name, string(value));
        i = i + 1;
    }
    assert(all.subrange(0, i as int) =~= all);
    object(m)
}

/// Whether an inbound body can be sent on: it is empty, or it is JSON.
pub fn is_json_body(body: &str) -> (r: bool)
    ensures
        r == body_json(body@) is Some,
{
    parse_body(body).is_some()
}

/// The document of an inbound body: see [`body_json`].
fn parse_body(body: &str) -> (r: Option<serde_json::Value>)
    ensures
        r is Some <==> body_json(body@) is Some,
        r is Some ==> json_of(r->0) == body_json(body@)->0,
{
    if body.is_empty() {
        Some(object(new_object()))
    } else {
        match parse(body.as_bytes()) {
            Ok(v) => Some(v),
            Err(_) => None,
        }
    }
}

/// The document of the envelope of a request, for a body that is parsed
/// already: a JSON object with the four members `originReplyTo`, `headers`,
/// `queryParameters` and `body`. Header names are put in lower case; where a
/// name occurs twice, its last entry counts.
pub fn request_document(
    reply_target: &str,
    headers: &Vec<(String, String)>,
    query_parameters: &Vec<(String, String)>,
    body: serde_json::Value,
) -> (doc: serde_json::Value)
    ensures
        json_of(doc) == request_json(
            (RequestModel {
                reply_to: reply_target@,
                headers: pairs_map(lowered(pairs_view(headers@))),
                query: pairs_map(pairs_view(query_parameters@)),
                body: json_of(body),
            }),
        ),
{
    let mut m = new_object();
    let _ = set_member(&mut m, "originReplyTo".to_owned(), string(reply_target.to_owned()));
    let _ = set_member(&mut m, "headers".to_owned(), text_object(headers, true));
    let _ = set_member(&mut m, "queryParameters".to_owned(), text_object(query_parameters, false));
    let _ = set_member(&mut m, "body".to_owned(), body);
    object(m)
}

/// Writes the envelope of a request.
///
/// The envelope is a JSON object with four members: `originReplyTo`, the reply
/// address; `headers`, the headers with their names in lower case, and
/// `queryParameters`, each an object of strings; and `body`, the inbound body
/// as JSON, or `{}` where the request has none. Where a name occurs twice, its
/// last entry counts. A body that is not JSON is an `Encoding` error, and so is
/// an envelope that the printer refuses.
pub fn encode_request(
    reply_target: &str,
    headers: &Vec<(String, String)>,
    query_parameters: &Vec<(String, String)>,
    body: &str,
) -> (r: Result<Vec<u8>, GatewayError>)
    ensures
        match request_bytes(
            reply_target@,
            pairs_view(headers@),
            pairs_view(query_parameters@),
            body@,
        ) {
            Some(bytes) => r is Ok && r->Ok_0@ == bytes,
            None => r == Err::<Vec<u8>, GatewayError>(GatewayError::Encoding),
        },
{
    let body_value = match parse_body(body) {
        Some(v) => v,
        None => {
            return Err(GatewayError::Encoding);
        },
    };
    let doc = request_document(reply_target, headers, query_parameters, body_value);
    match print(&doc) {
        Ok(bytes) => Ok(bytes),
        Err(_) => Err(GatewayError::Encoding),
    }
}

/// The map of texts that a member of an object writes, where the member is
/// an object of strings.
pub open spec fn texts_of(doc: Json) -> Option<Map<Seq<char>, Seq<char>>> {
    match doc {
        Json::Object(members) => text_values(members),
        _ => None,
    }
}

/// What a reply envelope holds, as a mathematical value.
pub ghost struct ReplyModel {
    pub status: u16,
    pub headers: Map<Seq<char>, Seq<char>>,
    pub body: Json,
}

/// The status that a member writes: a non-negative integer from 100 to 599.
pub open spec fn status_of(doc: Json) -> Option<u16> {
    match doc {
        Json::Number(JsonNumber::Unsigned(n)) => if 100 <= n && n <= 599 {
            Some(n as u16)
        } else {
            None
        },
        _ => None,
    }
}

/// The reply that a JSON document is: an object with a `statusCode` from 100
/// to 599, with `headers` that are an object of strings (none, where the
/// member is missing) and with a `body` (the empty object, where the member
/// is missing). Nothing where the document is anything else.
pub open spec fn reply_of_json(doc: Json) -> Option<ReplyModel> {
    match doc {
        Json::Object(members) => {
            let status = if members.contains_key("statusCode"@) {
                status_of(members["statusCode"@])
            } else {
                None
            };
            let headers = if members.contains_key("headers"@) {
                texts_of(members["headers"@])
            } else {
                Some(Map::empty())
            };
            let body = if members.contains_key("body"@) {
                members["body"@]
            } else {
                empty_object()
            };
            if status is Some && headers is Some {
                Some(ReplyModel { status: status->0, headers: headers->0, body })
            } else {
                None
            }
        },
        _ => None,
    }
}

/// The reply that these bytes are, if they are one.
pub open spec fn reply_model(bytes: Seq<u8>) -> Option<ReplyModel> {
    match json_parse(bytes) {
        Some(doc) => reply_of_json(doc),
        None => None,
    }
}

/// The body of the HTTP response for a reply's body: nothing for the empty
/// object, else the body's compact text.
pub open spec fn body_text(body: Json) -> Seq<char> {
    if body == empty_object() {
        Seq::empty()
    } else {
        json_text(body)
    }
}

/// The request that a JSON document is: an object with the four members of a
/// request envelope. Nothing where the document is anything else.
pub open spec fn request_of_json(doc: Json) -> Option<RequestModel> {
    match doc {
        Json::Object(members) => {
            if members.contains_key("originReplyTo"@) && members["originReplyTo"@] is Text
                && members.contains_key("headers"@) && texts_of(members["headers"@]) is Some
                && members.contains_key("queryParameters"@) && texts_of(
                members["queryParameters"@],
            ) is Some && members.contains_key("body"@) {
                Some(
                    RequestModel {
                        reply_to: members["originReplyTo"@]->Text_0,
                        headers: texts_of(members["headers"@])->0,
                        query: texts_of(members["queryParameters"@])->0,
                        body: members["body"@],
                    },
                )
            } else {
                None
            }
        },
        _ => None,
    }
}

/// The request that these bytes are, if they are one.
pub open spec fn request_read(bytes: Seq<u8>) -> Option<RequestModel> {
    match json_parse(bytes) {
        Some(doc) => request_of_json(doc),
        None => None,
    }
}

/// An object of strings reads back as the map that it was written for.
pub proof fn lemma_texts_round_trip(m: Map<Seq<char>, Seq<char>>)
    ensures
        texts_of(Json::Object(text_members(m))) == Some(m),
{
    let members = text_members(m);
    assert(text_values(members) is Some);
    assert(text_values(members)->0 =~= m);
}

/// The document that is written for an envelope reads back as that envelope:
/// reply address, headers, query parameters and body are the ones that went in.
pub proof fn law_request_round_trip(e: RequestModel)
    ensures
        request_of_json(request_json(e)) == Some(e),
{
    reveal_strlit("originReplyTo");
    reveal_strlit("headers");
    reveal_strlit("queryParameters");
    reveal_strlit("body");
    assert("originReplyTo"@.len() == 13);
    assert("headers"@.len() == 7);
    assert("queryParameters"@.len() == 15);
    assert("body"@.len() == 4);
    lemma_texts_round_trip(e.headers);
    lemma_texts_round_trip(e.query);
}

/// Encoding a request and decoding the bytes gives back what went in, with
/// the header names in lower case, wherever the parser reads the document
/// that the printer wrote.
pub proof fn law_encode_then_decode(
    reply_to: Seq<char>,
    headers: Seq<(Seq<char>, Seq<char>)>,
    query: Seq<(Seq<char>, Seq<char>)>,
    body: Seq<char>,
)
    ensures
        ({
            let e = request_model(reply_to, headers, query, body);
            let bytes = request_bytes(reply_to, headers, query, body);
            e is Some && bytes is Some && json_parse(bytes->0) == Some(request_json(e->0))
                ==> request_read(bytes->0) == e
        }),
{
    let e = request_model(reply_to, headers, query, body);
    if e is Some {
        law_request_round_trip(e->0);
    }
}

/// The entries of an object of strings, in the order of the names.
fn pairs_of(v: &serde_json::Value) -> (r: Option<Vec<(String, String)>>)
    ensures
        r is Some <==> texts_of(json_of(*v)) is Some,
        r is Some ==> lists(pairs_view(r->0@), texts_of(json_of(*v))->0),
        r is Some ==> pairs_view(r->0@) == listing(texts_of(json_of(*v))->0),
{
    let map = match as_object(v) {
        Some(map) => map,
        None => {
            return None;
        },
    };
    let entries = members(map);
    let ghost all = members_of(*map);
    let mut pairs: Vec<(String, String)> = Vec::new();
    let mut i: usize = 0;
    while i < entries.len()
        invariant
            i <= entries.len(),
            pairs.len() == i,
            json_of(*v) == Json::Object(all),
            forall|k: int|
                0 <= k < entries@.len() ==> all.contains_key(#[trigger] entries@[k].0@)
                    && all[entries@[k].0@] == json_of(*entries@[k].1),
            forall|k: int|
                0 <= k < i ==> (#[trigger] pairs@[k]).0@ == entries@[k].0@ && json_of(
                    *entries@[k].1,
                ) == Json::Text(pairs@[k].1@),
        decreases entries.len() - i,
    {
        let value = match as_text(entries[i].1) {
            Some(value) => value,
            None => {
                assert(all.contains_key(entries@[i as int].0@));
                assert(!(all[entries@[i as int].0@] is Text));
                return None;
            },
        };
        pairs.push((entries[i].0.clone(), value.to_owned()));
        i = i + 1;
    }
    proof {
        let listed = pairs_view(pairs@);
        assert forall|name: Seq<char>| all.contains_key(name) implies (#[trigger] all[name])
            is Text by {
            let k = choose|k: int| 0 <= k < entries@.len() && #[trigger] entries@[k].0@ == name;
            assert(pairs@[k].0@ == name);
        }
        let texts = text_values(all)->0;
        assert forall|name: Seq<char>| #[trigger] texts.contains_key(name) implies exists|k: int|
            0 <= k < listed.len() && #[trigger] listed[k].0 == name by {
            let k = choose|k: int| 0 <= k < entries@.len() && #[trigger] entries@[k].0@ == name;
            assert(listed[k].0 == name);
        }
        assert forall|a: int, b: int| 0 <= a < b < listed.len() implies text_lt(
            #[trigger] listed[a].0,
            #[trigger] listed[b].0,
        ) by {
            assert(pairs@[a].0@ == entries@[a].0@);
            assert(pairs@[b].0@ == entries@[b].0@);
        }
        assert forall|k: int| 0 <= k < listed.len() implies texts.contains_key(
            #[trigger] listed[k].0,
        ) && texts[listed[k].0] == listed[k].1 by {
            assert(pairs@[k].0@ == entries@[k].0@);
        }
        lemma_listing_unique(listed, texts);
    }
    Some(pairs)
}

/// The reply that a parsed document is.
///
/// The document must be an object with a member `statusCode`, an integer
/// from 100 to 599. A member `headers` must be an object of strings; without
/// it the reply has no headers. The member `body` may be any JSON; without
/// it, or where it is `{}`, the body of the response is empty, else it is the
/// member's compact text. Anything else is a `MalformedReply`.
pub fn reply_from_document(doc: &serde_json::Value) -> (r: Result<NatsReponse, GatewayError>)
    ensures
        match reply_of_json(json_of(*doc)) {
            Some(reply) => r is Ok && r->Ok_0.status_code == reply.status && lists(
                pairs_view(r->Ok_0.headers@),
                reply.headers,
            ) && pairs_view(r->Ok_0.headers@) == listing(reply.headers) && r->Ok_0.body@
                == body_text(reply.body),
            None => r == Err::<NatsReponse, GatewayError>(GatewayError::MalformedReply),
        },
        r is Ok ==> r->Ok_0.well_formed(),
{
    let status_code = match member(doc, "statusCode") {
        Some(code) => match as_unsigned(code) {
            Some(n) => if 100 <= n && n <= 599 {
                n as u16
            } else {
                return Err(GatewayError::MalformedReply);
            },
            None => {
                return Err(GatewayError::MalformedReply);
            },
        },
        None => {
            return Err(GatewayError::MalformedReply);
        },
    };
    let headers = match member(doc, "headers") {
        Some(object) => match pairs_of(object) {
            Some(pairs) => pairs,
            None => {
                return Err(GatewayError::MalformedReply);
            },
        },
        None => {
            let none: Vec<(String, String)> = Vec::new();
            proof {
                assert(lists(pairs_view(none@), Map::empty()));
                lemma_listing_unique(pairs_view(none@), Map::empty());
            }
            none
        },
    };
    let body = match member(doc, "body") {
        Some(value) => if is_empty_object(value) {
            String::new()
        } else {
            text(value)
        },
        None => String::new(),
    };
    Ok(NatsReponse { headers, body, status_code })
}

/// Reads the envelope of a reply from the payload of a message: the payload
/// must be one JSON text, and the document a reply as
/// [`reply_from_document`] says. Anything else is a `MalformedReply`.
pub fn decode_reply(bytes: &[u8]) -> (r: Result<NatsReponse, GatewayError>)
    ensures
        match reply_model(bytes@) {
            Some(reply) => r is Ok && r->Ok_0.status_code == reply.status && lists(
                pairs_view(r->Ok_0.headers@),
                reply.headers,
            ) && pairs_view(r->Ok_0.headers@) == listing(reply.headers) && r->Ok_0.body@
                == body_text(reply.body),
            None => r == Err::<NatsReponse, GatewayError>(GatewayError::MalformedReply),
        },
        r is Ok ==> r->Ok_0.well_formed(),
{
    match parse(bytes) {
        Ok(doc) => reply_from_document(&doc),
        Err(_) => Err(GatewayError::MalformedReply),
    }
}

/// Whether the value is the object without members.
fn is_empty_object(v: &serde_json::Value) -> (r: bool)
    ensures
        r == (json_of(*v) == empty_object()),
{
    match as_object(v) {
        Some(map) => {
            let entries = members(map);
            proof {
                if entries@.len() == 0 {
                    assert(members_of(*map) =~= Map::empty());
                } else {
                    assert(members_of(*map).contains_key(entries@[0].0@));
                }
            }
            entries.len() == 0
        },
        None => false,
    }
}

/// The request that a parsed document is.
///
/// The document must be an object with the members `originReplyTo`, a
/// string, `headers` and `queryParameters`, each an object of strings, and
/// `body`. The body is handed out as compact text. Anything else is an
/// `Encoding` error.
pub fn request_from_document(doc: &serde_json::Value) -> (r: Result<NatsRequest, GatewayError>)
    ensures
        match request_of_json(json_of(*doc)) {
            Some(e) => r is Ok && r->Ok_0.origin_reply_to@ == e.reply_to && lists(
                pairs_view(r->Ok_0.headers@),
                e.headers,
            ) && pairs_view(r->Ok_0.headers@) == listing(e.headers) && lists(
                pairs_view(r->Ok_0.query_parameters@),
                e.query,
            ) && pairs_view(r->Ok_0.query_parameters@) == listing(e.query) && r->Ok_0.body@
                == json_text(e.body),
            None => r == Err::<NatsRequest, GatewayError>(GatewayError::Encoding),
        },
{
    let origin_reply_to = match member(doc, "originReplyTo") {
        Some(value) => match as_text(value) {
            Some(address) => address.to_owned(),
            None => {
                return Err(GatewayError::Encoding);
            },
        },
        None => {
            return Err(GatewayError::Encoding);
        },
    };
    let headers = match member(doc, "headers") {
        Some(object) => match pairs_of(object) {
            Some(pairs) => pairs,
            None => {
                return Err(GatewayError::Encoding);
            },
        },
        None => {
            return Err(GatewayError::Encoding);
        },
    };
    let query_parameters = match member(doc, "queryParameters") {
        Some(object) => match pairs_of(object) {
            Some(pairs) => pairs,
            None => {
                return Err(GatewayError::Encoding);
            },
        },
        None => {
            return Err(GatewayError::Encoding);
        },
    };
    let body = match member(doc, "body") {
        Some(value) => text(value),
        None => {
            return Err(GatewayError::Encoding);
        },
    };
    Ok(NatsRequest { origin_reply_to, headers, query_parameters, body })
}

/// Reads the envelope of a request from the payload of a message: the
/// inverse of [`encode_request`]. The payload must be one JSON text, and the
/// document a request as [`request_from_document`] says. Anything else is an
/// `Encoding` error.
pub fn decode_request(bytes: &[u8]) -> (r: Result<NatsRequest, GatewayError>)
    ensures
        match request_read(bytes@) {
            Some(e) => r is Ok && r->Ok_0.origin_reply_to@ == e.reply_to && lists(
                pairs_view(r->Ok_0.headers@),
                e.headers,
            ) && pairs_view(r->Ok_0.headers@) == listing(e.headers) && lists(
                pairs_view(r->Ok_0.query_parameters@),
                e.query,
            ) && pairs_view(r->Ok_0.query_parameters@) == listing(e.query) && r->Ok_0.body@
                == json_text(e.body),
            None => r == Err::<NatsRequest, GatewayError>(GatewayError::Encoding),
        },
{
    match parse(bytes) {
        Ok(doc) => request_from_document(&doc),
        Err(_) => Err(GatewayError::Encoding),
    }
}

} // verus!
