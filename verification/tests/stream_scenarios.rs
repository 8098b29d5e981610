//! End-to-end scenarios driven against the bridge state machine: submission,
//! routing, timeout and stream draining, observed exactly as an HTTP caller
//! would see the line stream.

use bridge_core::bridge::{Bridge, StreamStep, SubmitError, Submission};
use bridge_core::codec::InboundEvent;

fn expect_line(step: StreamStep) -> String {
    match step {
        StreamStep::Line(l) => l,
        other => panic!("expected a line, got {:?}", other),
    }
}

fn submit_ok(bridge: &mut Bridge, model: &str, prompt: &str, new_chat: bool) -> Submission {
    match bridge.submit(model, prompt, new_chat) {
        Ok(sub) => sub,
        Err(e) => panic!("submission refused: {:?}", e),
    }
}

#[test]
fn empty_model_rejected_without_side_effects() {
    let mut bridge = Bridge::new();
    let r = bridge.submit("", "hi", false);
    assert_eq!(r.unwrap_err(), SubmitError::MissingField);
    assert_eq!(bridge.entry_count(), 0);
    assert_eq!(bridge.peer_count(), 0);
    assert_eq!(bridge.next_serial(), 0);
}

#[test]
fn empty_prompt_rejected_without_side_effects() {
    let mut bridge = Bridge::new();
    bridge.register_peer(7);
    let r = bridge.submit("m1", "", true);
    assert_eq!(r.unwrap_err(), SubmitError::MissingField);
    assert_eq!(bridge.entry_count(), 0);
    assert_eq!(bridge.peer_count(), 1);
    assert_eq!(bridge.next_serial(), 0);
}

#[test]
fn submit_error_message() {
    assert_eq!(SubmitError::MissingField.message(), "model and prompt required");
}

#[test]
fn tokens_of_distinct_submissions_differ() {
    let mut bridge = Bridge::new();
    let s1 = submit_ok(&mut bridge, "m1", "hi", false);
    let s2 = submit_ok(&mut bridge, "m1", "hi", false);
    let s3 = submit_ok(&mut bridge, "m2", "other", true);
    assert_ne!(s1.token, s2.token);
    assert_ne!(s1.token, s3.token);
    assert_ne!(s2.token, s3.token);
}

#[test]
fn registering_peers_keeps_duplicates() {
    let mut bridge = Bridge::new();
    bridge.register_peer(1);
    bridge.register_peer(1);
    bridge.register_peer(2);
    assert_eq!(bridge.peer_count(), 3);
}

#[test]
fn no_peer_submission_times_out() {
    // Scenario: submit with no peers connected; the caller sees the queued
    // status, then — once the timeout guard fires — exactly one timeout
    // error, then the stream ends.
    let mut bridge = Bridge::new();
    let sub = submit_ok(&mut bridge, "m1", "hi", false);
    let line1 = expect_line(bridge.next_line(&sub.token));
    assert_eq!(line1, "{\"type\":\"status\",\"text\":\"Request queued\"}");
    assert_eq!(bridge.next_line(&sub.token), StreamStep::Pending);
    assert!(bridge.timeout_fire(&sub.token));
    let line2 = expect_line(bridge.next_line(&sub.token));
    assert_eq!(line2, "{\"type\":\"error\",\"text\":\"Timeout waiting for AI response\"}");
    assert_eq!(bridge.next_line(&sub.token), StreamStep::Finished);
    // a second firing is a harmless no-op
    assert!(!bridge.timeout_fire(&sub.token));
    assert_eq!(bridge.next_line(&sub.token), StreamStep::Finished);
}

#[test]
fn immediate_response_closes_stream() {
    // Scenario: one connected peer answers at once. The caller sees the
    // queued status and the done record; the entry is closed by the final
    // response itself, so the stream ends without waiting out the timeout.
    let mut bridge = Bridge::new();
    bridge.register_peer(1);
    let sub = submit_ok(&mut bridge, "m1", "hi", false);
    assert!(bridge.route(&sub.token, InboundEvent::Response(String::from("hello"))));
    let line1 = expect_line(bridge.next_line(&sub.token));
    assert_eq!(line1, "{\"type\":\"status\",\"text\":\"Request queued\"}");
    let line2 = expect_line(bridge.next_line(&sub.token));
    assert_eq!(line2, "{\"type\":\"done\",\"text\":\"hello\"}");
    assert_eq!(bridge.next_line(&sub.token), StreamStep::Finished);
    // the later timeout finds the entry closed
    assert!(!bridge.timeout_fire(&sub.token));
}

#[test]
fn status_event_is_second_record() {
    // One connected peer sends a status note: it appears strictly after the
    // queued status and before anything else for that request.
    let mut bridge = Bridge::new();
    bridge.register_peer(1);
    let sub = submit_ok(&mut bridge, "m1", "hi", false);
    assert!(bridge.route(&sub.token, InboundEvent::Status(String::from("Working on it"))));
    let line1 = expect_line(bridge.next_line(&sub.token));
    assert_eq!(line1, "{\"type\":\"status\",\"text\":\"Request queued\"}");
    let line2 = expect_line(bridge.next_line(&sub.token));
    assert_eq!(line2, "{\"type\":\"status\",\"text\":\"Working on it\"}");
    assert_eq!(bridge.next_line(&sub.token), StreamStep::Pending);
}

#[test]
fn unknown_token_event_is_dropped() {
    let mut bridge = Bridge::new();
    let sub = submit_ok(&mut bridge, "m1", "hi", false);
    assert!(!bridge.route("no-such-token", InboundEvent::Status(String::from("lost"))));
    assert_eq!(bridge.entry_count(), 1);
    // the live request is untouched: only its queued status is enqueued
    let line1 = expect_line(bridge.next_line(&sub.token));
    assert_eq!(line1, "{\"type\":\"status\",\"text\":\"Request queued\"}");
    assert_eq!(bridge.next_line(&sub.token), StreamStep::Pending);
}

#[test]
fn event_after_timeout_is_dropped() {
    let mut bridge = Bridge::new();
    let sub = submit_ok(&mut bridge, "m1", "hi", false);
    assert!(bridge.timeout_fire(&sub.token));
    // the peer answers too late: the entry is closed, the event goes nowhere
    assert!(!bridge.route(&sub.token, InboundEvent::Response(String::from("late"))));
    let line1 = expect_line(bridge.next_line(&sub.token));
    assert_eq!(line1, "{\"type\":\"status\",\"text\":\"Request queued\"}");
    let line2 = expect_line(bridge.next_line(&sub.token));
    assert_eq!(line2, "{\"type\":\"error\",\"text\":\"Timeout waiting for AI response\"}");
    assert_eq!(bridge.next_line(&sub.token), StreamStep::Finished);
}

#[test]
fn concurrent_requests_never_cross() {
    // Scenario: two submissions against the same peer set; each stream sees
    // only the records tagged with its own token.
    let mut bridge = Bridge::new();
    bridge.register_peer(1);
    let sub1 = submit_ok(&mut bridge, "m1", "first", false);
    let sub2 = submit_ok(&mut bridge, "m1", "second", false);
    assert!(bridge.route(&sub1.token, InboundEvent::Stream(String::from("alpha"))));
    assert!(bridge.route(&sub2.token, InboundEvent::Response(String::from("beta"))));
    assert!(bridge.route(&sub1.token, InboundEvent::Response(String::from("gamma"))));

    let mut stream1: Vec<String> = Vec::new();
    loop {
        match bridge.next_line(&sub1.token) {
            StreamStep::Line(l) => stream1.push(l),
            StreamStep::Pending => panic!("stream one should be closed"),
            StreamStep::Finished => break,
        }
    }
    let mut stream2: Vec<String> = Vec::new();
    loop {
        match bridge.next_line(&sub2.token) {
            StreamStep::Line(l) => stream2.push(l),
            StreamStep::Pending => panic!("stream two should be closed"),
            StreamStep::Finished => break,
        }
    }
    assert_eq!(
        stream1,
        vec![
            String::from("{\"type\":\"status\",\"text\":\"Request queued\"}"),
            String::from("{\"type\":\"chunk\",\"text\":\"alpha\"}"),
            String::from("{\"type\":\"done\",\"text\":\"gamma\"}"),
        ]
    );
    assert_eq!(
        stream2,
        vec![
            String::from("{\"type\":\"status\",\"text\":\"Request queued\"}"),
            String::from("{\"type\":\"done\",\"text\":\"beta\"}"),
        ]
    );
    for line in &stream1 {
        assert!(!line.contains("beta"));
    }
    for line in &stream2 {
        assert!(!line.contains("alpha"));
        assert!(!line.contains("gamma"));
    }
}

#[test]
fn draining_unknown_token_is_finished() {
    let mut bridge = Bridge::new();
    assert_eq!(bridge.next_line("never-submitted"), StreamStep::Finished);
}
