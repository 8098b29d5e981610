//! The wire forms: work-order frames, record lines with their JSON escaping,
//! inbound-frame decoding and event translation.

use bridge_core::bridge::{Bridge, StreamStep};
use bridge_core::codec::{decode_event, record_to_line, translate, InboundEvent, OutboundRecord};

fn expect_line(step: StreamStep) -> String {
    match step {
        StreamStep::Line(l) => l,
        other => panic!("expected a line, got {:?}", other),
    }
}

#[test]
fn work_order_frame_is_exact() {
    let mut bridge = Bridge::new();
    let sub = bridge.submit("m1", "hi", false).unwrap();
    let expected = format!(
        "{{\"action\":\"sendPrompt\",\"requestId\":\"{}\",\"model\":\"m1\",\"text\":\"hi\",\"newChat\":false}}",
        sub.token
    );
    assert_eq!(sub.frame, expected);
}

#[test]
fn work_order_frame_new_chat_and_escaping() {
    let mut bridge = Bridge::new();
    let sub = bridge.submit("m\"x", "a\\b", true).unwrap();
    let expected = format!(
        "{{\"action\":\"sendPrompt\",\"requestId\":\"{}\",\"model\":\"m\\\"x\",\"text\":\"a\\\\b\",\"newChat\":true}}",
        sub.token
    );
    assert_eq!(sub.frame, expected);
}

#[test]
fn token_is_parseable_json_string_in_frame() {
    // the frame as a whole must be one valid JSON object carrying the fields
    let mut bridge = Bridge::new();
    let sub = bridge.submit("m1", "hi there", true).unwrap();
    let v: serde_json::Value = serde_json::from_str(&sub.frame).unwrap();
    assert_eq!(v["action"], "sendPrompt");
    assert_eq!(v["requestId"], sub.token.as_str());
    assert_eq!(v["model"], "m1");
    assert_eq!(v["text"], "hi there");
    assert_eq!(v["newChat"], true);
}

#[test]
fn record_lines_are_exact() {
    assert_eq!(
        record_to_line(&OutboundRecord::Status(String::from("Request queued"))),
        "{\"type\":\"status\",\"text\":\"Request queued\"}"
    );
    assert_eq!(
        record_to_line(&OutboundRecord::Chunk(String::from("part"))),
        "{\"type\":\"chunk\",\"text\":\"part\"}"
    );
    assert_eq!(
        record_to_line(&OutboundRecord::Done(String::from("all"))),
        "{\"type\":\"done\",\"text\":\"all\"}"
    );
    assert_eq!(
        record_to_line(&OutboundRecord::Error(String::from("boom"))),
        "{\"type\":\"error\",\"text\":\"boom\"}"
    );
}

#[test]
fn status_text_is_escaped_on_the_stream() {
    // a payload holding quotes, backslashes and a newline must come out as
    // proper JSON, not verbatim
    let mut bridge = Bridge::new();
    let sub = bridge.submit("m1", "hi", false).unwrap();
    assert!(bridge.route(&sub.token, InboundEvent::Status(String::from("a\"b\\c\nd"))));
    let _queued = expect_line(bridge.next_line(&sub.token));
    let line = expect_line(bridge.next_line(&sub.token));
    assert_eq!(line, "{\"type\":\"status\",\"text\":\"a\\\"b\\\\c\\nd\"}");
    let v: serde_json::Value = serde_json::from_str(&line).unwrap();
    assert_eq!(v["text"], "a\"b\\c\nd");
}

#[test]
fn translate_maps_kinds() {
    assert_eq!(
        translate(InboundEvent::Response(String::from("x"))),
        OutboundRecord::Done(String::from("x"))
    );
    assert_eq!(
        translate(InboundEvent::Stream(String::from("y"))),
        OutboundRecord::Chunk(String::from("y"))
    );
    assert_eq!(
        translate(InboundEvent::Status(String::from("z"))),
        OutboundRecord::Status(String::from("z"))
    );
}

#[test]
fn decode_event_recognizes_kinds() {
    let r = decode_event(
        Some(String::from("response")),
        Some(String::from("r1")),
        Some(String::from("t")),
        None,
        None,
    );
    assert_eq!(r, Some((String::from("r1"), InboundEvent::Response(String::from("t")))));

    let r = decode_event(
        Some(String::from("stream")),
        Some(String::from("r2")),
        None,
        Some(String::from("c")),
        None,
    );
    assert_eq!(r, Some((String::from("r2"), InboundEvent::Stream(String::from("c")))));

    let r = decode_event(
        Some(String::from("status")),
        Some(String::from("r3")),
        None,
        None,
        Some(String::from("s")),
    );
    assert_eq!(r, Some((String::from("r3"), InboundEvent::Status(String::from("s")))));
}

#[test]
fn decode_event_drops_unusable_frames() {
    // unknown kind
    assert_eq!(
        decode_event(Some(String::from("ping")), Some(String::from("r1")), None, None, None),
        None
    );
    // no kind at all
    assert_eq!(decode_event(None, Some(String::from("r1")), None, None, None), None);
    // no request token
    assert_eq!(decode_event(Some(String::from("response")), None, Some(String::from("t")), None, None), None);
}

#[test]
fn decode_event_reads_missing_payload_as_empty() {
    let r = decode_event(Some(String::from("response")), Some(String::from("r1")), None, None, None);
    assert_eq!(r, Some((String::from("r1"), InboundEvent::Response(String::new()))));
    // the wrong payload field is ignored
    let r = decode_event(
        Some(String::from("status")),
        Some(String::from("r1")),
        Some(String::from("ignored")),
        Some(String::from("ignored")),
        None,
    );
    assert_eq!(r, Some((String::from("r1"), InboundEvent::Status(String::new()))));
}

#[test]
fn token_shape_serial_then_dash() {
    let mut bridge = Bridge::new();
    let s1 = bridge.submit("m1", "hi", false).unwrap();
    let s2 = bridge.submit("m1", "hi", false).unwrap();
    assert!(s1.token.starts_with("0-"));
    assert!(s2.token.starts_with("1-"));
}
