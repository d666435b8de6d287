use nats_gateway::trace::{inject, traceparent_of, Metadata, TraceContext};

fn pair(name: &str, value: &str) -> (String, String) {
    (name.to_string(), value.to_string())
}

fn context(sampled: bool) -> TraceContext {
    TraceContext { trace_id: "t1".to_string(), span_id: "s1".to_string(), sampled }
}

#[test]
fn traceparent_has_version_trace_span_and_flags() {
    assert_eq!(traceparent_of(&context(true)), "00-t1-s1-01");
    assert_eq!(traceparent_of(&context(false)), "00-t1-s1-00");
}

#[test]
fn missing_trace_context_injects_nothing() {
    let mut sink = Metadata { entries: vec![pair("Nats-Msg-Id", "k")] };
    inject(&None, &mut sink);
    assert_eq!(sink.entries, vec![pair("Nats-Msg-Id", "k")]);
}

#[test]
fn trace_context_is_injected_as_traceparent() {
    let mut sink = Metadata::new();
    inject(&Some(context(true)), &mut sink);
    assert_eq!(sink.entries, vec![pair("traceparent", "00-t1-s1-01")]);
}

#[test]
fn injecting_again_replaces_the_entry() {
    let mut sink = Metadata { entries: vec![pair("traceparent", "old"), pair("b", "2")] };
    inject(&Some(context(false)), &mut sink);
    assert_eq!(sink.entries, vec![pair("traceparent", "00-t1-s1-00"), pair("b", "2")]);
}

#[test]
fn set_replaces_the_first_entry_of_a_name_or_adds_one() {
    let mut sink = Metadata::new();
    assert!(sink.entries.is_empty());
    sink.set("a".to_string(), "1".to_string());
    sink.set("b".to_string(), "2".to_string());
    assert_eq!(sink.entries, vec![pair("a", "1"), pair("b", "2")]);
    sink.set("a".to_string(), "3".to_string());
    assert_eq!(sink.entries, vec![pair("a", "3"), pair("b", "2")]);
    sink.set("A".to_string(), "4".to_string());
    assert_eq!(sink.entries, vec![pair("a", "3"), pair("b", "2"), pair("A", "4")]);
}
