use nats_gateway::envelope::{
    decode_reply, decode_request, encode_request, is_json_body, reply_from_document,
    request_document, request_from_document, GatewayError, NatsReponse, NatsRequest,
};
use serde_json::{Number, Value};

fn pair(name: &str, value: &str) -> (String, String) {
    (name.to_string(), value.to_string())
}

#[test]
fn request_is_written_with_its_four_members() {
    let bytes = encode_request(
        "_INBOX.abc",
        &vec![pair("X-Request-Id", "r1")],
        &vec![pair("page", "2")],
        "{\"item\":\"x\"}",
    )
    .unwrap();
    assert_eq!(
        String::from_utf8(bytes).unwrap(),
        "{\"body\":{\"item\":\"x\"},\"headers\":{\"x-request-id\":\"r1\"},\
         \"originReplyTo\":\"_INBOX.abc\",\"queryParameters\":{\"page\":\"2\"}}"
    );
}

#[test]
fn missing_body_is_written_as_empty_object() {
    let bytes = encode_request("_INBOX.1", &vec![], &vec![], "").unwrap();
    assert_eq!(
        String::from_utf8(bytes).unwrap(),
        "{\"body\":{},\"headers\":{},\"originReplyTo\":\"_INBOX.1\",\"queryParameters\":{}}"
    );
}

#[test]
fn body_that_is_not_json_is_an_encoding_error() {
    assert_eq!(
        encode_request("_INBOX.1", &vec![], &vec![], "{not json"),
        Err(GatewayError::Encoding)
    );
    assert_eq!(
        encode_request("_INBOX.1", &vec![], &vec![], "   "),
        Err(GatewayError::Encoding)
    );
}

#[test]
fn last_entry_of_a_repeated_header_counts() {
    let bytes = encode_request(
        "r",
        &vec![pair("Accept", "a"), pair("accept", "b"), pair("ACCEPT", "c")],
        &vec![pair("q", "1"), pair("q", "2")],
        "",
    )
    .unwrap();
    let request = decode_request(&bytes).unwrap();
    assert_eq!(request.headers, vec![pair("accept", "c")]);
    assert_eq!(request.query_parameters, vec![pair("q", "2")]);
}

#[test]
fn round_trip_gives_back_headers_query_and_body() {
    let headers = vec![pair("x-request-id", "r1"), pair("accept", "application/json")];
    let query = vec![pair("page", "2"), pair("Limit", "10")];
    let bytes = encode_request("_INBOX.xyz", &headers, &query, "{\"item\":\"x\",\"n\":[1,2]}")
        .unwrap();
    assert_eq!(
        decode_request(&bytes),
        Ok(NatsRequest {
            origin_reply_to: "_INBOX.xyz".to_string(),
            headers: vec![pair("accept", "application/json"), pair("x-request-id", "r1")],
            query_parameters: vec![pair("Limit", "10"), pair("page", "2")],
            body: "{\"item\":\"x\",\"n\":[1,2]}".to_string(),
        })
    );
}

#[test]
fn request_without_a_member_is_not_read() {
    assert_eq!(
        decode_request(b"{\"headers\":{},\"originReplyTo\":\"a\",\"queryParameters\":{}}"),
        Err(GatewayError::Encoding)
    );
    assert_eq!(
        decode_request(b"{\"body\":1,\"headers\":{\"a\":1},\"originReplyTo\":\"a\",\"queryParameters\":{}}"),
        Err(GatewayError::Encoding)
    );
    assert_eq!(decode_request(b"[]"), Err(GatewayError::Encoding));
    assert_eq!(decode_request(b"{"), Err(GatewayError::Encoding));
}

#[test]
fn reply_with_body_is_read() {
    let reply = decode_reply(b"{\"headers\":{},\"body\":{\"id\":42},\"statusCode\":200}").unwrap();
    assert_eq!(
        reply,
        NatsReponse { headers: vec![], body: "{\"id\":42}".to_string(), status_code: 200 }
    );
}

#[test]
fn reply_body_is_compact_text() {
    let reply =
        decode_reply(b"{ \"statusCode\": 200, \"body\": { \"b\": [1, 2], \"a\": \"x\" } }").unwrap();
    assert_eq!(reply.body, "{\"a\":\"x\",\"b\":[1,2]}");
    let reply = decode_reply(b"{\"statusCode\":200,\"body\":\"plain\"}").unwrap();
    assert_eq!(reply.body, "\"plain\"");
    let reply = decode_reply(b"{\"statusCode\":200,\"body\":[]}").unwrap();
    assert_eq!(reply.body, "[]");
}

#[test]
fn empty_object_body_is_an_empty_body() {
    let reply = decode_reply(b"{\"statusCode\":201,\"body\":{}}").unwrap();
    assert_eq!(reply, NatsReponse { headers: vec![], body: String::new(), status_code: 201 });
    let reply = decode_reply(b"{\"statusCode\":204}").unwrap();
    assert_eq!(reply, NatsReponse { headers: vec![], body: String::new(), status_code: 204 });
}

#[test]
fn reply_headers_come_out_in_the_order_of_their_names() {
    let reply = decode_reply(
        b"{\"statusCode\":200,\"headers\":{\"x-b\":\"2\",\"X-a\":\"0\",\"x-a\":\"1\",\"x\":\"3\"}}",
    )
    .unwrap();
    assert_eq!(
        reply.headers,
        vec![pair("X-a", "0"), pair("x", "3"), pair("x-a", "1"), pair("x-b", "2")]
    );
}

#[test]
fn reply_that_is_not_json_is_malformed() {
    assert_eq!(decode_reply(b"not json"), Err(GatewayError::MalformedReply));
    assert_eq!(decode_reply(b""), Err(GatewayError::MalformedReply));
    assert_eq!(decode_reply(b"{\"statusCode\":200} trailing"), Err(GatewayError::MalformedReply));
}

#[test]
fn reply_without_status_is_malformed() {
    assert_eq!(decode_reply(b"{\"headers\":{},\"body\":{}}"), Err(GatewayError::MalformedReply));
    assert_eq!(decode_reply(b"[200]"), Err(GatewayError::MalformedReply));
    assert_eq!(decode_reply(b"200"), Err(GatewayError::MalformedReply));
}

#[test]
fn status_must_be_an_integer_from_100_to_599() {
    assert_eq!(decode_reply(b"{\"statusCode\":100}").unwrap().status_code, 100);
    assert_eq!(decode_reply(b"{\"statusCode\":599}").unwrap().status_code, 599);
    assert_eq!(decode_reply(b"{\"statusCode\":99}"), Err(GatewayError::MalformedReply));
    assert_eq!(decode_reply(b"{\"statusCode\":600}"), Err(GatewayError::MalformedReply));
    assert_eq!(decode_reply(b"{\"statusCode\":-200}"), Err(GatewayError::MalformedReply));
    assert_eq!(decode_reply(b"{\"statusCode\":200.0}"), Err(GatewayError::MalformedReply));
    assert_eq!(decode_reply(b"{\"statusCode\":\"200\"}"), Err(GatewayError::MalformedReply));
    assert_eq!(
        decode_reply(b"{\"statusCode\":18446744073709551816}"),
        Err(GatewayError::MalformedReply)
    );
}

#[test]
fn reply_headers_must_be_an_object_of_strings() {
    assert_eq!(
        decode_reply(b"{\"statusCode\":200,\"headers\":{\"a\":1}}"),
        Err(GatewayError::MalformedReply)
    );
    assert_eq!(
        decode_reply(b"{\"statusCode\":200,\"headers\":[]}"),
        Err(GatewayError::MalformedReply)
    );
}

#[test]
fn body_is_json_or_empty() {
    assert!(is_json_body(""));
    assert!(is_json_body("{}"));
    assert!(is_json_body(" [1, 2] "));
    assert!(is_json_body("null"));
    assert!(!is_json_body(" "));
    assert!(!is_json_body("{\"a\":}"));
    assert!(!is_json_body("{} {}"));
}

#[test]
fn request_document_has_the_four_members() {
    let mut body = serde_json::Map::new();
    body.insert("item".to_string(), Value::String("x".to_string()));
    let doc = request_document(
        "_INBOX.7",
        &vec![pair("Accept", "a"), pair("ACCEPT", "b")],
        &vec![pair("page", "2")],
        Value::Object(body.clone()),
    );
    let mut headers = serde_json::Map::new();
    headers.insert("accept".to_string(), Value::String("b".to_string()));
    let mut query = serde_json::Map::new();
    query.insert("page".to_string(), Value::String("2".to_string()));
    let mut expected = serde_json::Map::new();
    expected.insert("originReplyTo".to_string(), Value::String("_INBOX.7".to_string()));
    expected.insert("headers".to_string(), Value::Object(headers));
    expected.insert("queryParameters".to_string(), Value::Object(query));
    expected.insert("body".to_string(), Value::Object(body));
    assert_eq!(doc, Value::Object(expected));
}

#[test]
fn reply_is_read_from_a_document() {
    let mut headers = serde_json::Map::new();
    headers.insert("b".to_string(), Value::String("2".to_string()));
    headers.insert("a".to_string(), Value::String("1".to_string()));
    let mut doc = serde_json::Map::new();
    doc.insert("statusCode".to_string(), Value::Number(Number::from(418u64)));
    doc.insert("headers".to_string(), Value::Object(headers));
    doc.insert("body".to_string(), Value::Array(vec![Value::Bool(true), Value::Null]));
    assert_eq!(
        reply_from_document(&Value::Object(doc)),
        Ok(NatsReponse {
            headers: vec![pair("a", "1"), pair("b", "2")],
            body: "[true,null]".to_string(),
            status_code: 418,
        })
    );
}

#[test]
fn document_that_is_no_reply_is_malformed() {
    assert_eq!(reply_from_document(&Value::Null), Err(GatewayError::MalformedReply));
    assert_eq!(reply_from_document(&Value::Object(serde_json::Map::new())), Err(GatewayError::MalformedReply));
    let mut doc = serde_json::Map::new();
    doc.insert("statusCode".to_string(), Value::Number(Number::from(-1i64)));
    assert_eq!(reply_from_document(&Value::Object(doc)), Err(GatewayError::MalformedReply));
    let mut doc = serde_json::Map::new();
    doc.insert("statusCode".to_string(), Value::Number(Number::from(200u64)));
    doc.insert("headers".to_string(), Value::String("x".to_string()));
    assert_eq!(reply_from_document(&Value::Object(doc)), Err(GatewayError::MalformedReply));
}

#[test]
fn request_is_read_from_the_document_that_was_written() {
    let doc = request_document(
        "_INBOX.8",
        &vec![pair("X-B", "2"), pair("x-a", "1")],
        &vec![],
        Value::Number(Number::from(7u64)),
    );
    assert_eq!(
        request_from_document(&doc),
        Ok(NatsRequest {
            origin_reply_to: "_INBOX.8".to_string(),
            headers: vec![pair("x-a", "1"), pair("x-b", "2")],
            query_parameters: vec![],
            body: "7".to_string(),
        })
    );
    assert_eq!(request_from_document(&Value::Bool(false)), Err(GatewayError::Encoding));
}
