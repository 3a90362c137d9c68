use telemetry_bridge::frames::{forward_frame, sensor_type_of, status_envelope, NewSensorData};
use telemetry_bridge::history::BoundedBuffer;
use telemetry_bridge::link::{
    classify_topic, command_log_message, command_payload, frame_command, ingest, record_publish,
    send_command,
    CommandError, InboundRecord, LinkAction, LinkPhase, MqttClient, TopicKind, COMMAND_TOPIC,
    LOGS_TOPIC, RECONNECT_BACKOFF_MS,
};
use telemetry_bridge::records::{Command, InterceptedMessage, LogEntry, TestResult};
use telemetry_bridge::session::{InboundFrame, Session, SessionAction, SessionEvent};
use telemetry_bridge::state::AppState;

fn message(n: usize) -> InterceptedMessage {
    InterceptedMessage {
        timestamp: n as i64,
        source: format!("src{}", n),
        destination: "dst".to_string(),
        protocol: "mqtt".to_string(),
        data: "payload".to_string(),
        size: n,
    }
}

fn log(n: usize) -> LogEntry {
    LogEntry {
        timestamp: n as i64,
        level: "INFO".to_string(),
        message: format!("entry {}", n),
        source: "device".to_string(),
    }
}

fn result(kind: &str, status: &str) -> TestResult {
    TestResult {
        timestamp: 1,
        type_: kind.to_string(),
        status: status.to_string(),
        details: String::new(),
        packet_rate_bits: None,
    }
}

fn command(device: &str, action: &str) -> Command {
    Command { device: device.to_string(), action: action.to_string() }
}

fn broker_client() -> (rumqttc::AsyncClient, rumqttc::EventLoop) {
    rumqttc::AsyncClient::new(rumqttc::MqttOptions::new("bridge-test", "127.0.0.1", 1883), 10)
}

#[test]
fn buffer_keeps_newest_in_order() {
    let mut b: BoundedBuffer<u32> = BoundedBuffer::new(3);
    for i in 0..5u32 {
        b.append(i);
    }
    assert_eq!(b.len(), 3);
    assert_eq!(b.as_slice(), &[2, 3, 4]);
    assert_eq!(b.capacity(), 3);
}

#[test]
fn buffer_below_capacity_keeps_everything() {
    let mut b: BoundedBuffer<u32> = BoundedBuffer::new(3);
    b.append(7);
    b.append(8);
    assert_eq!(b.as_slice(), &[7, 8]);
}

#[test]
fn hundred_fifty_messages_keep_last_hundred() {
    let mut state = AppState::new();
    for i in 0..150 {
        state.add_intercepted_message(message(i));
    }
    let kept = state.intercepted_messages.as_slice();
    assert_eq!(kept.len(), 100);
    for (k, m) in kept.iter().enumerate() {
        assert_eq!(m.size, 50 + k);
    }
    assert_eq!(state.get_status().intercepted_messages_count, 100);
}

#[test]
fn same_kind_result_replaces_previous() {
    let mut state = AppState::new();
    state.add_test_result(result("ping", "running"));
    state.add_test_result(result("ping", "done"));
    assert_eq!(state.test_results.len(), 1);
    let got = state.test_results.get(&"ping".to_string()).unwrap();
    assert_eq!(got.status, "done");
    let status = state.get_status();
    assert_eq!(status.test_results.len(), 1);
    assert_eq!(status.test_results.get(&"ping".to_string()).unwrap().status, "done");
}

#[test]
fn distinct_kinds_each_kept() {
    let mut state = AppState::new();
    state.add_test_result(result("ping", "ok"));
    state.add_test_result(result("flood", "ok"));
    state.add_test_result(result("ping", "failed"));
    let all = state.test_results.to_vec();
    assert_eq!(all.len(), 2);
    assert_eq!(state.test_results.get(&"flood".to_string()).unwrap().status, "ok");
    assert_eq!(state.test_results.get(&"ping".to_string()).unwrap().status, "failed");
    assert!(state.test_results.get(&"scan".to_string()).is_none());
}

#[test]
fn status_logs_newest_first_and_bounded() {
    let mut state = AppState::new();
    for i in 0..25 {
        state.add_log(log(i));
    }
    let status = state.get_status();
    assert_eq!(status.latest_logs.len(), 10);
    for (k, e) in status.latest_logs.iter().enumerate() {
        assert_eq!(e.timestamp, 24 - k as i64);
    }
}

#[test]
fn status_with_few_logs() {
    let mut state = AppState::new();
    state.add_log(log(1));
    state.add_log(log(2));
    state.set_connectivity(true);
    let status = state.get_status();
    assert!(status.mqtt_connected);
    assert_eq!(status.intercepted_messages_count, 0);
    let stamps: Vec<i64> = status.latest_logs.iter().map(|e| e.timestamp).collect();
    assert_eq!(stamps, vec![2, 1]);
}

#[test]
fn logs_evict_oldest_past_capacity() {
    let mut state = AppState::new();
    for i in 0..101 {
        state.add_log(log(i));
    }
    assert_eq!(state.logs.len(), 100);
    assert_eq!(state.logs.as_slice()[0].timestamp, 1);
}

#[test]
fn empty_command_fields_rejected() {
    let mut state = AppState::new();
    let (c, _events) = broker_client();
    let mut link = MqttClient::new();
    link.start();
    link.on_connected(c, &mut state);
    let before = state.logs.len();
    assert_eq!(send_command(&link, &mut state, &command("", "on")), Err(CommandError::InvalidCommand));
    assert_eq!(send_command(&link, &mut state, &command("lamp", "")), Err(CommandError::InvalidCommand));
    assert_eq!(state.logs.len(), before);
    assert_eq!(CommandError::InvalidCommand.message(), "Device and action are required");
}

#[test]
fn publish_while_disconnected_fails_without_log() {
    let mut state = AppState::new();
    let link = MqttClient::new();
    assert!(!link.is_connected());
    assert_eq!(link.publish_command(&mut state, &command("lamp", "on")), Err(CommandError::NotConnected));
    assert_eq!(send_command(&link, &mut state, &command("lamp", "on")), Err(CommandError::NotConnected));
    assert_eq!(state.logs.len(), 0);
    assert_eq!(CommandError::NotConnected.message(), "MQTT client not initialized");
}

#[test]
fn publish_while_connected_logs_once() {
    let mut state = AppState::new();
    let (c, _events) = broker_client();
    let mut link = MqttClient::new();
    assert_eq!(link.start(), LinkAction::Connect);
    let failed = link.on_connected(c, &mut state);
    assert!(failed.is_empty());
    assert_eq!(send_command(&link, &mut state, &command("lamp", "on")), Ok(()));
    assert_eq!(state.logs.len(), 1);
    let entry = &state.logs.as_slice()[0];
    assert_eq!(entry.level, "INFO");
    assert_eq!(entry.message, "Command sent: on for device lamp");
    assert_eq!(entry.source, "backend");
    assert!(entry.timestamp > 0);
}

#[test]
fn reconnect_flips_flag_and_resubscribes() {
    let mut state = AppState::new();
    let mut link = MqttClient::new();
    assert_eq!(link.phase(), LinkPhase::Disconnected);
    assert_eq!(link.start(), LinkAction::Connect);
    assert_eq!(link.phase(), LinkPhase::Connecting);
    let (c1, _e1) = broker_client();
    assert!(link.on_connected(c1, &mut state).is_empty());
    assert!(state.mqtt_connected);
    assert_eq!(link.phase(), LinkPhase::Subscribed);

    assert_eq!(link.on_connection_lost(&mut state), LinkAction::Wait(RECONNECT_BACKOFF_MS));
    assert_eq!(RECONNECT_BACKOFF_MS, 5000);
    assert!(!state.mqtt_connected);
    assert!(!link.is_connected());
    assert!(link.subscriptions().is_empty());
    assert_eq!(send_command(&link, &mut state, &command("lamp", "on")), Err(CommandError::NotConnected));
    assert_eq!(state.logs.len(), 0);
    assert!(!state.get_status().mqtt_connected);
    assert_eq!(link.phase(), LinkPhase::Degraded);

    assert_eq!(link.on_backoff_elapsed(), LinkAction::Connect);
    assert_eq!(link.phase(), LinkPhase::Connecting);
    let (c2, _e2) = broker_client();
    assert!(link.on_connected(c2, &mut state).is_empty());
    assert!(state.mqtt_connected);
    assert_eq!(
        link.subscriptions(),
        vec![
            "secot/audit/intercepted".to_string(),
            "secot/audit/results".to_string(),
            "secot/audit/logs".to_string()
        ]
    );
}

#[test]
fn subscription_failures_are_reported() {
    let mut state = AppState::new();
    let mut link = MqttClient::new();
    link.start();
    let (c, events) = broker_client();
    drop(events);
    let failed = link.on_connected(c, &mut state);
    assert_eq!(failed.len(), 3);
    assert!(link.subscriptions().is_empty());
    assert!(state.mqtt_connected);
    assert_eq!(link.publish_command(&mut state, &command("lamp", "on")), Err(CommandError::PublishFailed));
    assert_eq!(state.logs.len(), 0);
}

#[test]
fn transitions_ignored_out_of_phase() {
    let mut link = MqttClient::new();
    assert_eq!(link.on_backoff_elapsed(), LinkAction::Idle);
    link.start();
    assert_eq!(link.start(), LinkAction::Idle);
    assert_eq!(link.phase(), LinkPhase::Connecting);
}

#[test]
fn topics_route_to_decoders() {
    assert_eq!(classify_topic("secot/audit/intercepted"), Some(TopicKind::Intercepted));
    assert_eq!(classify_topic("secot/audit/results"), Some(TopicKind::Results));
    assert_eq!(classify_topic(LOGS_TOPIC), Some(TopicKind::Logs));
    assert_eq!(classify_topic("secot/audit"), None);
    assert_eq!(classify_topic(COMMAND_TOPIC), None);
}

#[test]
fn ingest_dispatches_by_record() {
    let mut state = AppState::new();
    ingest(&mut state, InboundRecord::Intercepted(message(1)));
    ingest(&mut state, InboundRecord::Result(result("ping", "ok")));
    ingest(&mut state, InboundRecord::Log(log(3)));
    assert_eq!(state.intercepted_messages.len(), 1);
    assert_eq!(state.test_results.len(), 1);
    assert_eq!(state.logs.len(), 1);
}

#[test]
fn command_payload_is_json() {
    assert_eq!(command_payload(&command("lamp", "on")), "{\"device\":\"lamp\",\"action\":\"on\"}");
    assert_eq!(command_payload(&command("a\"b", "x\\y")), "{\"device\":\"a\\\"b\",\"action\":\"x\\\\y\"}");
    assert_eq!(frame_command("1", "[2]"), "{\"device\":1,\"action\":[2]}");
    assert_eq!(command_log_message(&command("fan", "off")), "Command sent: off for device fan");
}

#[test]
fn session_pushes_and_pings_while_open() {
    let mut s = Session::new(0);
    assert_eq!(s.step(SessionEvent::PushDue), SessionAction::PushSnapshot);
    assert_eq!(s.step(SessionEvent::HeartbeatDue(5000)), SessionAction::SendPing);
    assert_eq!(s.step(SessionEvent::Frame(InboundFrame::Pong, 6000)), SessionAction::Nothing);
    assert_eq!(s.last_heartbeat_ms, 6000);
    assert_eq!(s.step(SessionEvent::Frame(InboundFrame::Ping, 7000)), SessionAction::SendPong);
    assert_eq!(s.step(SessionEvent::Frame(InboundFrame::Text, 7100)), SessionAction::Nothing);
    assert_eq!(s.step(SessionEvent::Frame(InboundFrame::Binary, 7200)), SessionAction::Nothing);
    assert_eq!(s.step(SessionEvent::HeartbeatDue(17000)), SessionAction::SendPing);
    assert!(s.is_open());
}

#[test]
fn session_times_out_without_liveness() {
    let mut s = Session::new(0);
    assert_eq!(s.step(SessionEvent::HeartbeatDue(10001)), SessionAction::Stop);
    assert!(!s.is_open());
}

#[test]
fn client_disconnect_stops_all_tasks() {
    let mut s = Session::new(0);
    assert_eq!(s.step(SessionEvent::PushDue), SessionAction::PushSnapshot);
    assert_eq!(s.step(SessionEvent::Frame(InboundFrame::Close, 500)), SessionAction::Stop);
    assert!(!s.is_open());
    assert_eq!(s.step(SessionEvent::PushDue), SessionAction::Stop);
    assert_eq!(s.step(SessionEvent::Frame(InboundFrame::Ping, 900)), SessionAction::Stop);
    let mut t = Session::new(0);
    assert_eq!(t.step(SessionEvent::WriteFailed), SessionAction::Stop);
    let mut u = Session::new(0);
    assert_eq!(u.step(SessionEvent::QueueClosed), SessionAction::Stop);
    assert_eq!(u.step(SessionEvent::HeartbeatDue(1)), SessionAction::Stop);
}

#[test]
fn frames_and_sensor_types() {
    assert_eq!(status_envelope("{}"), "{\"data\":{},\"type\":\"status_update\"}");
    assert_eq!(forward_frame("sensors/temperature", "{\"value\":21.5}"), "{\"topic\":\"sensors/temperature\",\"payload\":{\"value\":21.5}}");
    assert_eq!(sensor_type_of("sensors/temperature"), "temperature");
    assert_eq!(sensor_type_of("a/b/c"), "b");
    assert_eq!(sensor_type_of("plain"), "unknown");
    assert_eq!(sensor_type_of("end/"), "");
}

#[test]
fn sensor_reading_takes_category_from_topic() {
    let r = NewSensorData::from_reading("sensors/humidity", 42.5f64.to_bits(), 7);
    assert_eq!(r.sensor_type, "humidity");
    assert_eq!(f64::from_bits(r.value_bits), 42.5);
    assert_eq!(r.timestamp, 7);
}

#[test]
fn accepted_publish_is_logged_at_given_time() {
    let mut state = AppState::new();
    assert_eq!(record_publish(&mut state, &command("door", "lock"), true, 1234), Ok(()));
    assert_eq!(state.logs.len(), 1);
    let entry = &state.logs.as_slice()[0];
    assert_eq!(entry.timestamp, 1234);
    assert_eq!(entry.level, "INFO");
    assert_eq!(entry.message, "Command sent: lock for device door");
    assert_eq!(entry.source, "backend");
}

#[test]
fn refused_publish_changes_nothing() {
    let mut state = AppState::new();
    state.add_log(log(1));
    assert_eq!(record_publish(&mut state, &command("door", "lock"), false, 99), Err(CommandError::PublishFailed));
    assert_eq!(state.logs.len(), 1);
    assert_eq!(state.logs.as_slice()[0].timestamp, 1);
    assert_eq!(CommandError::PublishFailed.message(), "Failed to send mqtt requests to eventloop");
}

#[test]
fn accepted_publish_at_capacity_evicts_oldest() {
    let mut state = AppState::new();
    for i in 0..100 {
        state.add_log(log(i));
    }
    assert_eq!(record_publish(&mut state, &command("fan", "on"), true, 5), Ok(()));
    assert_eq!(state.logs.len(), 100);
    assert_eq!(state.logs.as_slice()[0].timestamp, 1);
    assert_eq!(state.logs.as_slice()[99].message, "Command sent: on for device fan");
}

#[test]
fn payload_escapes_control_characters() {
    assert_eq!(
        command_payload(&command("a\nb\u{1}", "t\tx\u{8}\u{c}\r")),
        "{\"device\":\"a\\nb\\u0001\",\"action\":\"t\\tx\\b\\f\\r\"}"
    );
    assert_eq!(command_payload(&command("caf\u{e9}/1", "\u{1f}")), "{\"device\":\"caf\u{e9}/1\",\"action\":\"\\u001f\"}");
}

#[test]
fn publish_with_handle_but_link_down_is_not_connected() {
    let mut state = AppState::new();
    let (c, _events) = broker_client();
    let mut link = MqttClient::new();
    link.start();
    link.on_connected(c, &mut state);
    state.set_connectivity(false);
    assert!(link.is_connected());
    assert_eq!(link.publish_command(&mut state, &command("lamp", "on")), Err(CommandError::NotConnected));
    assert_eq!(send_command(&link, &mut state, &command("lamp", "on")), Err(CommandError::NotConnected));
    assert_eq!(state.logs.len(), 0);
}

#[test]
fn subscription_answers_are_recorded_by_kind() {
    let mut link = MqttClient::new();
    let mut failed: Vec<String> = Vec::new();
    link.record_subscription(TopicKind::Results, true, &mut failed);
    link.record_subscription(TopicKind::Logs, false, &mut failed);
    assert_eq!(link.subscriptions(), vec!["secot/audit/results".to_string()]);
    assert_eq!(failed, vec!["secot/audit/logs".to_string()]);
}
