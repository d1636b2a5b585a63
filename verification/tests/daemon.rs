use libdogd::{
    after_write, encode, ingest, next_turn, on_connection, publish_decoded, sink_unavailable,
    Broadcaster, DecodeError, Delivery, Inbound, Ingest, Listening, LogLine, LogPriority,
    Timestamp, Turn, LOG_INPUT_ADDR, LOG_OUTPUT_ADDR, LOG_PATH, SINK_FAILURE,
};

fn record(line: &str, prog_name: &str, priority: LogPriority) -> LogLine {
    LogLine {
        line: line.to_string(),
        prog_name: prog_name.to_string(),
        priority,
        time: Timestamp::new(1, 2).unwrap(),
    }
}

#[test]
fn a_submitted_record_reaches_the_connected_subscriber() {
    colored::control::set_override(false);
    let mut hub = Broadcaster::new();
    let subscriber = hub.subscribe().unwrap();
    let packet = encode(&record("boot ok", "svc", LogPriority::Info)).unwrap();
    assert_eq!(on_connection(&mut hub, &Inbound::Packet(packet)), Listening::Accept);
    assert_eq!(next_turn(&mut hub, &subscriber), Turn::Write("svc(I) boot ok\n".to_string()));
    assert_eq!(next_turn(&mut hub, &subscriber), Turn::Wait);
}

#[test]
fn a_two_line_record_is_published_as_two_lines() {
    colored::control::set_override(false);
    let mut hub = Broadcaster::new();
    let subscriber = hub.subscribe().unwrap();
    let packet = encode(&record("a\nb", "x", LogPriority::Error)).unwrap();
    assert_eq!(ingest(&mut hub, &packet), Ingest::Published);
    assert_eq!(hub.receive(&subscriber), Delivery::Text("x(E) a\nx(E) b\n".to_string()));
}

#[test]
fn a_connection_without_bytes_is_passed_over() {
    let mut hub = Broadcaster::new();
    let subscriber = hub.subscribe().unwrap();
    assert_eq!(on_connection(&mut hub, &Inbound::Packet(String::new())), Listening::Accept);
    assert_eq!(hub.pending(&subscriber), 0);
    assert_eq!(ingest(&mut hub, ""), Ingest::Dropped(DecodeError::Line));
    colored::control::set_override(false);
    let packet = encode(&record("next", "svc", LogPriority::Info)).unwrap();
    assert_eq!(on_connection(&mut hub, &Inbound::Packet(packet)), Listening::Accept);
    assert_eq!(hub.receive(&subscriber), Delivery::Text("svc(I) next\n".to_string()));
}

#[test]
fn a_lost_connection_is_passed_over() {
    let mut hub = Broadcaster::new();
    let subscriber = hub.subscribe().unwrap();
    assert_eq!(on_connection(&mut hub, &Inbound::Lost), Listening::Accept);
    assert_eq!(hub.pending(&subscriber), 0);
}

#[test]
fn an_unknown_priority_reaches_nobody() {
    let mut hub = Broadcaster::new();
    let subscriber = hub.subscribe().unwrap();
    let packet = "line = \"l\"\nprog_name = \"n\"\npriority = \"Loud\"\n[time]\nsecs = 1\nnanos = 2\n";
    assert_eq!(ingest(&mut hub, packet), Ingest::Dropped(DecodeError::Priority));
    assert_eq!(hub.pending(&subscriber), 0);
    assert_eq!(hub.receive(&subscriber), Delivery::Idle);
    assert_eq!(on_connection(&mut hub, &Inbound::Packet(packet.to_string())), Listening::Accept);
    assert_eq!(hub.pending(&subscriber), 0);
}

#[test]
fn garbage_reaches_nobody() {
    let mut hub = Broadcaster::new();
    let subscriber = hub.subscribe().unwrap();
    assert_eq!(ingest(&mut hub, "not toml at all {"), Ingest::Dropped(DecodeError::Malformed));
    assert_eq!(hub.pending(&subscriber), 0);
}

#[test]
fn a_refused_record_ends_the_listener() {
    let mut hub = Broadcaster::new();
    let subscriber = hub.subscribe().unwrap();
    hub.close();
    let packet = encode(&record("late", "svc", LogPriority::Info)).unwrap();
    assert_eq!(ingest(&mut hub, &packet), Ingest::Refused);
    assert_eq!(on_connection(&mut hub, &Inbound::Packet(packet)), Listening::Abort);
    assert_eq!(hub.pending(&subscriber), 0);
    assert_eq!(on_connection(&mut hub, &Inbound::Packet("junk".to_string())), Listening::Accept);
    assert_eq!(on_connection(&mut hub, &Inbound::Lost), Listening::Accept);
}

#[test]
fn what_did_not_decode_is_dropped_with_its_reason() {
    let mut hub = Broadcaster::new();
    let subscriber = hub.subscribe().unwrap();
    assert_eq!(
        publish_decoded(&mut hub, &Err(DecodeError::Time)),
        Ingest::Dropped(DecodeError::Time)
    );
    assert_eq!(hub.pending(&subscriber), 0);
    colored::control::set_override(false);
    assert_eq!(
        publish_decoded(&mut hub, &Ok(record("x\ny", "d", LogPriority::Debug))),
        Ingest::Published
    );
    assert_eq!(hub.receive(&subscriber), Delivery::Text("d(D) x\nd(D) y\n".to_string()));
}

#[test]
fn two_subscribers_one_leaves_before_reading() {
    colored::control::set_override(false);
    let mut hub = Broadcaster::new();
    let a = hub.subscribe().unwrap();
    let b = hub.subscribe().unwrap();
    let first = encode(&record("one", "svc", LogPriority::Info)).unwrap();
    let second = encode(&record("two", "svc", LogPriority::Error)).unwrap();
    assert_eq!(ingest(&mut hub, &first), Ingest::Published);
    assert!(!after_write(&mut hub, &a, false));
    assert_eq!(ingest(&mut hub, &second), Ingest::Published);
    assert_eq!(next_turn(&mut hub, &b), Turn::Write("svc(I) one\n".to_string()));
    assert!(after_write(&mut hub, &b, true));
    assert_eq!(next_turn(&mut hub, &b), Turn::Write("svc(E) two\n".to_string()));
    assert!(after_write(&mut hub, &b, true));
    assert_eq!(next_turn(&mut hub, &b), Turn::Wait);
    assert_eq!(next_turn(&mut hub, &a), Turn::Stop);
}

#[test]
fn a_failed_write_detaches_the_consumer() {
    let mut hub = Broadcaster::new();
    let a = hub.subscribe().unwrap();
    hub.publish("one").unwrap();
    hub.publish("two").unwrap();
    assert_eq!(next_turn(&mut hub, &a), Turn::Write("one".to_string()));
    assert!(hub.is_attached(&a));
    assert!(!after_write(&mut hub, &a, false));
    assert!(!hub.is_attached(&a));
    assert_eq!(next_turn(&mut hub, &a), Turn::Stop);
}

#[test]
fn a_good_write_changes_nothing() {
    let mut hub = Broadcaster::new();
    let a = hub.subscribe().unwrap();
    hub.publish("one").unwrap();
    hub.publish("two").unwrap();
    assert_eq!(next_turn(&mut hub, &a), Turn::Write("one".to_string()));
    assert!(after_write(&mut hub, &a, true));
    assert!(hub.is_attached(&a));
    assert_eq!(hub.pending(&a), 1);
}

#[test]
fn the_worker_stops_when_the_broadcaster_is_closed_and_drained() {
    let mut hub = Broadcaster::new();
    let a = hub.subscribe().unwrap();
    hub.publish("last").unwrap();
    hub.close();
    assert_eq!(next_turn(&mut hub, &a), Turn::Write("last".to_string()));
    assert_eq!(next_turn(&mut hub, &a), Turn::Stop);
    assert!(!hub.is_attached(&a));
}

#[test]
fn a_file_sink_without_its_file_reports_and_leaves() {
    let mut hub = Broadcaster::new();
    let console = hub.subscribe().unwrap();
    let file = hub.subscribe().unwrap();
    let now = Timestamp::new(10, 20).unwrap();
    let report = sink_unavailable(&mut hub, &file, Some("/usr/bin/dogd"), now).unwrap();
    assert!(!hub.is_attached(&file));
    assert!(hub.is_attached(&console));
    let expected = LogLine {
        line: "Failed to open or create log file".to_string(),
        prog_name: "dogd".to_string(),
        priority: LogPriority::Error,
        time: now,
    };
    assert_eq!(libdogd::decode(&report), Ok(expected));
    colored::control::set_override(false);
    assert_eq!(ingest(&mut hub, &report), Ingest::Published);
    assert_eq!(
        hub.receive(&console),
        Delivery::Text("dogd(E) Failed to open or create log file\n".to_string())
    );
}

#[test]
fn the_fixed_places() {
    assert_eq!(LOG_INPUT_ADDR, "127.0.0.1:4001");
    assert_eq!(LOG_OUTPUT_ADDR, "127.0.0.1:4002");
    assert_ne!(LOG_INPUT_ADDR, LOG_OUTPUT_ADDR);
    assert_eq!(LOG_PATH, "/var/log/dogd");
    assert_eq!(SINK_FAILURE, "Failed to open or create log file");
}
