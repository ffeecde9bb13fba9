use eyes::events::MessageType;
use eyes::logline::{feed_log_output, translate_log_records, LogEvent};

#[test]
fn test_log_event_from_json_basic() {
    let json = r#"{
        "timestamp": "2024-12-09 10:30:45.123456-0800",
        "messageType": "Error",
        "subsystem": "com.apple.Safari",
        "category": "WebProcess",
        "process": "Safari",
        "processID": 1234,
        "message": "Failed to load resource"
    }"#;

    let event = LogEvent::from_json(json).unwrap();
    assert_eq!(event.message_type, MessageType::Error);
    assert_eq!(event.subsystem, "com.apple.Safari");
    assert_eq!(event.category, "WebProcess");
    assert_eq!(event.process, "Safari");
    assert_eq!(event.process_id, 1234);
    assert_eq!(event.message, "Failed to load resource");
}

#[test]
fn log_event_timestamp_is_utc_millis() {
    let json = r#"{"timestamp":"2024-12-09 10:30:45.123456-0800","messageType":"fault","subsystem":"s","category":"c","process":"p","processID":1,"message":"m"}"#;
    let event = LogEvent::from_json(json).unwrap();
    // 2024-12-09 18:30:45.123 UTC
    assert_eq!(event.timestamp, 1_733_769_045_123);
    assert_eq!(event.message_type, MessageType::Fault);
}

fn line(message_type: &str, msg: &str) -> String {
    format!(
        "{{\"timestamp\":\"2024-12-09 10:30:45.000000-0800\",\"messageType\":\"{}\",\"subsystem\":\"s\",\"category\":\"c\",\"process\":\"p\",\"processID\":7,\"message\":\"{}\"}}",
        message_type, msg
    )
}

#[test]
fn log_event_errors() {
    assert!(LogEvent::from_json("not json").is_err());
    assert!(LogEvent::from_json(&line("Notice", "x")).is_err());
    let bad_time = r#"{"timestamp":"yesterday","messageType":"error","subsystem":"s","category":"c","process":"p","processID":1,"message":"m"}"#;
    assert!(LogEvent::from_json(bad_time).is_err());
    let missing = r#"{"timestamp":"2024-12-09 10:30:45.000000-0800","messageType":"error"}"#;
    assert!(LogEvent::from_json(missing).is_err());
    let big_pid = r#"{"timestamp":"2024-12-09 10:30:45.000000-0800","messageType":"error","subsystem":"s","category":"c","process":"p","processID":5000000000,"message":"m"}"#;
    assert!(LogEvent::from_json(big_pid).is_err());
}

#[test]
fn malformed_lines_are_dropped_in_order() {
    let stream = format!(
        "{}\n{{broken\n\n{}\nnot json at all\n{}\n",
        line("Error", "first"),
        line("Info", "second"),
        line("Debug", "third")
    );
    let mut buf: Vec<u8> = Vec::new();
    let events = feed_log_output(&mut buf, stream.as_bytes());
    let messages: Vec<&str> = events.iter().map(|e| e.message.as_str()).collect();
    assert_eq!(messages, vec!["first", "second", "third"]);
    assert!(buf.is_empty());
}

#[test]
fn log_lines_split_mid_field() {
    let stream = format!("{}\n{}\n", line("Error", "one"), line("Fault", "two"));
    let bytes = stream.as_bytes();
    for cut in 0..=bytes.len() {
        let mut buf: Vec<u8> = Vec::new();
        let mut events = feed_log_output(&mut buf, &bytes[..cut]);
        events.extend(feed_log_output(&mut buf, &bytes[cut..]));
        assert_eq!(events.len(), 2, "cut at {}", cut);
        assert_eq!(events[0].message, "one");
        assert_eq!(events[1].message, "two");
    }
}

#[test]
fn translate_records_directly() {
    let records = vec![line("error", "a").into_bytes(), b"   ".to_vec(), b"{}".to_vec()];
    let events = translate_log_records(&records);
    assert_eq!(events.len(), 1);
    assert_eq!(events[0].message, "a");
}
