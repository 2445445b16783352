use pinball::loadtest::{
    average_balls, average_latency_ms, initial_lcg_state, next_lcg_state,
    parse_load_test_args, ClientEvent, Counter, Metrics,
};

fn args(list: &[&str]) -> Vec<String> {
    list.iter().map(|s| s.to_string()).collect()
}

#[test]
fn metrics_start_at_zero_and_count() {
    let mut m = Metrics::new();
    assert_eq!(m.connected, 0);
    assert_eq!(m.errors, 0);
    m.add(Counter::Connected, 1);
    m.add(Counter::TotalBallsSeen, 7);
    m.add(Counter::TotalBallsSeen, 3);
    assert_eq!(m.connected, 1);
    assert_eq!(m.total_balls_seen, 10);
    m.disconnected();
    assert_eq!(m.connected, 0);
    m.disconnected();
    assert_eq!(m.connected, u64::MAX);
    m.add(Counter::Errors, u64::MAX);
    m.add(Counter::Errors, 2);
    assert_eq!(m.errors, 1);
}

#[test]
fn averages() {
    assert_eq!(average_balls(10, 3), 3);
    assert_eq!(average_balls(10, 0), 0);
    assert_eq!(average_latency_ms(100, 4), Some(25));
    assert_eq!(average_latency_ms(100, 0), None);
}

#[test]
fn lcg_matches_wrapping_form() {
    let mut s = initial_lcg_state(3);
    assert_eq!(s, 3 * 12345 + 67890);
    for _ in 0..100 {
        let expected = s.wrapping_mul(6364136223846793005).wrapping_add(1);
        s = next_lcg_state(s);
        assert_eq!(s, expected);
    }
}

#[test]
fn command_line_defaults_and_flags() {
    let d = parse_load_test_args(&args(&["loadtest"]));
    assert_eq!(d.num_clients, 100);
    assert_eq!(d.duration_secs, 30);
    assert_eq!(d.escape_rate_text, None);
    assert_eq!(d.url, "ws://127.0.0.1:9001/ws");

    let a = parse_load_test_args(&args(&[
        "loadtest",
        "--clients",
        "200",
        "--duration",
        "45",
        "--escape-rate",
        "2.5",
        "--url",
        "ws://x/ws",
        "--bogus",
    ]));
    assert_eq!(a.num_clients, 200);
    assert_eq!(a.duration_secs, 45);
    assert_eq!(a.escape_rate_text.as_deref(), Some("2.5"));
    assert_eq!(a.url, "ws://x/ws");
}

#[test]
fn command_line_bad_or_missing_values_fall_back() {
    let a = parse_load_test_args(&args(&["loadtest", "--clients", "many", "--duration"]));
    assert_eq!(a.num_clients, 100);
    assert_eq!(a.duration_secs, 30);
    let b = parse_load_test_args(&args(&["loadtest", "--url", "ws://a", "--url"]));
    assert_eq!(b.url, "ws://a");
    let c = parse_load_test_args(&args(&["loadtest", "--clients", "5", "--clients", "-1"]));
    assert_eq!(c.num_clients, 100);
}

#[test]
fn command_line_numbers_follow_decimal_rules() {
    let a = parse_load_test_args(&args(&["loadtest", "--clients", "+5", "--duration", "007"]));
    assert_eq!(a.num_clients, 5);
    assert_eq!(a.duration_secs, 7);
    let b = parse_load_test_args(&args(&["loadtest", "--clients", "4294967296"]));
    assert_eq!(b.num_clients, 100);
    let c = parse_load_test_args(&args(&["loadtest", "--clients", "4294967295"]));
    assert_eq!(c.num_clients, 4294967295);
    let d = parse_load_test_args(&args(&["loadtest", "--clients", " 5", "--duration", "+"]));
    assert_eq!(d.num_clients, 100);
    assert_eq!(d.duration_secs, 30);
    let e = parse_load_test_args(&args(&["loadtest", "--duration", "18446744073709551615"]));
    assert_eq!(e.duration_secs, u64::MAX);
}

#[test]
fn client_events_are_booked_and_end_the_client() {
    let mut m = Metrics::new();
    assert!(m.record(ClientEvent::Connected { latency_ms: 12 }));
    assert!(m.record(ClientEvent::MessageReceived));
    assert!(m.record(ClientEvent::SpaceStateReceived { balls: 4 }));
    assert!(m.record(ClientEvent::TransferInReceived));
    assert!(m.record(ClientEvent::EscapeSent));
    assert_eq!(m.connected, 1);
    assert_eq!(m.latency_sum_ms, 12);
    assert_eq!(m.latency_count, 1);
    assert_eq!(m.messages_received, 1);
    assert_eq!(m.space_states_received, 1);
    assert_eq!(m.total_balls_seen, 4);
    assert_eq!(m.transfer_ins_received, 1);
    assert_eq!(m.ball_escapes_sent, 1);
    assert!(!m.record(ClientEvent::EscapeSendFailed));
    assert_eq!(m.errors, 1);
    assert!(!m.record(ClientEvent::StreamClosed));
    assert!(!m.record(ClientEvent::Left));
    assert_eq!(m.connected, 0);
    assert!(!m.record(ClientEvent::ConnectFailed));
    assert!(!m.record(ClientEvent::StreamFailed));
    assert_eq!(m.errors, 3);
    assert!(!m.record(ClientEvent::WelcomeFailed));
    assert_eq!(m.errors, 4);
    assert_eq!(m.connected, u64::MAX);
}
