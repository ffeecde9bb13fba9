use eyes::events::{MemoryPressure, MessageType, Severity};
use eyes::logline::LogEvent;
use eyes::rules::{contains, CrashDetectionRule, ErrorFrequencyRule, EventSummary, MemoryPressureRule};

const NOW_MS: i64 = 1_733_769_045_000;

fn create_test_log_event(message_type: MessageType, message: &str, timestamp_offset_seconds: i64) -> LogEvent {
    LogEvent {
        timestamp: NOW_MS - timestamp_offset_seconds * 1000,
        message_type,
        subsystem: "com.apple.test".to_string(),
        category: "test".to_string(),
        process: "testd".to_string(),
        process_id: 1234,
        message: message.to_string(),
    }
}

#[test]
fn test_error_frequency_rule_no_trigger() {
    let rule = ErrorFrequencyRule::new(5, 60, Severity::Warning);
    let log_events = vec![
        create_test_log_event(MessageType::Error, "Error 1", 10),
        create_test_log_event(MessageType::Error, "Error 2", 20),
        create_test_log_event(MessageType::Fault, "Fault 1", 30),
    ];
    assert!(!rule.evaluate(&log_events, NOW_MS));
}

#[test]
fn test_error_frequency_rule_trigger() {
    let rule = ErrorFrequencyRule::new(3, 60, Severity::Warning);
    let log_events = vec![
        create_test_log_event(MessageType::Error, "Error 1", 10),
        create_test_log_event(MessageType::Error, "Error 2", 20),
        create_test_log_event(MessageType::Fault, "Fault 1", 30),
        create_test_log_event(MessageType::Error, "Error 3", 40),
    ];
    assert!(rule.evaluate(&log_events, NOW_MS));
}

#[test]
fn test_error_frequency_rule_time_window() {
    let rule = ErrorFrequencyRule::new(2, 30, Severity::Warning);
    let log_events = vec![
        create_test_log_event(MessageType::Error, "Recent error 1", 10),
        create_test_log_event(MessageType::Error, "Recent error 2", 20),
        create_test_log_event(MessageType::Error, "Old error 1", 40),
        create_test_log_event(MessageType::Error, "Old error 2", 50),
    ];
    assert!(!rule.evaluate(&log_events, NOW_MS));

    let mut log_events_with_extra = log_events;
    log_events_with_extra.push(create_test_log_event(MessageType::Error, "Recent error 3", 15));
    assert!(rule.evaluate(&log_events_with_extra, NOW_MS));
}

#[test]
fn test_memory_pressure_rule_no_trigger() {
    let rule = MemoryPressureRule::new(MemoryPressure::Warning, Severity::Warning);
    let readings = vec![MemoryPressure::Normal, MemoryPressure::Normal];
    assert!(!rule.evaluate(&readings));
}

#[test]
fn test_memory_pressure_rule_trigger() {
    let rule = MemoryPressureRule::new(MemoryPressure::Warning, Severity::Warning);
    let readings = vec![MemoryPressure::Normal, MemoryPressure::Warning, MemoryPressure::Normal];
    assert!(rule.evaluate(&readings));
}

#[test]
fn test_memory_pressure_rule_critical_trigger() {
    let rule = MemoryPressureRule::new(MemoryPressure::Critical, Severity::Critical);
    let readings = vec![MemoryPressure::Normal, MemoryPressure::Warning, MemoryPressure::Critical];
    assert!(rule.evaluate(&readings));
}

#[test]
fn test_crash_detection_rule_no_trigger() {
    let rule = CrashDetectionRule::with_defaults();
    let log_events = vec![
        create_test_log_event(MessageType::Info, "Normal operation", 10),
        create_test_log_event(MessageType::Error, "Network timeout", 20),
    ];
    assert!(!rule.evaluate(&log_events));
}

#[test]
fn test_crash_detection_rule_trigger() {
    let rule = CrashDetectionRule::with_defaults();
    let log_events = vec![
        create_test_log_event(MessageType::Info, "Normal operation", 30),
        create_test_log_event(MessageType::Error, "Application crashed unexpectedly", 20),
        create_test_log_event(MessageType::Fault, "Segmentation fault in process", 10),
    ];
    assert!(rule.evaluate(&log_events));
}

#[test]
fn test_crash_detection_rule_case_insensitive() {
    let rule = CrashDetectionRule::with_defaults();
    let log_events = vec![create_test_log_event(MessageType::Error, "Process CRASHED due to SEGFAULT", 10)];
    assert!(rule.evaluate(&log_events));
}

#[test]
fn test_crash_detection_rule_custom_keywords() {
    let custom_keywords = vec!["custom_error".to_string(), "special_failure".to_string()];
    let rule = CrashDetectionRule::new(custom_keywords, Severity::Warning);
    let log_events = vec![create_test_log_event(MessageType::Error, "A custom_error occurred", 10)];
    assert!(rule.evaluate(&log_events));
    assert_eq!(rule.severity(), Severity::Warning);
}

#[test]
fn crash_keyword_in_info_message_is_ignored() {
    let rule = CrashDetectionRule::with_defaults();
    let log_events = vec![create_test_log_event(MessageType::Info, "crash report uploaded", 10)];
    assert!(!rule.evaluate(&log_events));
}

#[test]
fn default_rule_constructors() {
    let error_rule = ErrorFrequencyRule::with_defaults();
    assert_eq!(error_rule.threshold, 5);
    assert_eq!(error_rule.window_seconds, 60);
    assert_eq!(error_rule.severity(), Severity::Warning);
    assert_eq!(error_rule.name(), "ErrorFrequencyRule");

    let memory_rule = MemoryPressureRule::with_defaults();
    assert_eq!(memory_rule.threshold, MemoryPressure::Warning);
    assert_eq!(memory_rule.severity(), Severity::Warning);

    let memory_critical = MemoryPressureRule::critical();
    assert_eq!(memory_critical.threshold, MemoryPressure::Critical);
    assert_eq!(memory_critical.severity(), Severity::Critical);

    let crash_rule = CrashDetectionRule::with_defaults();
    assert_eq!(crash_rule.severity(), Severity::Critical);
    assert_eq!(crash_rule.crash_keywords.len(), 15);
}

#[test]
fn substring_search() {
    assert!(contains("segmentation fault here", "fault"));
    assert!(contains("abc", ""));
    assert!(!contains("ab", "abc"));
    assert!(!contains("kernel", "panic"));
}

#[test]
fn event_summary_counts() {
    let log_events = vec![
        create_test_log_event(MessageType::Error, "a", 1),
        create_test_log_event(MessageType::Error, "b", 1),
        create_test_log_event(MessageType::Fault, "c", 1),
        create_test_log_event(MessageType::Debug, "d", 1),
    ];
    let s = EventSummary::from_events(&log_events, 3, 2);
    assert_eq!(s.total_log_events, 4);
    assert_eq!(s.total_metrics_events, 3);
    assert_eq!(s.total_disk_events, 2);
    assert_eq!(s.error_count, 2);
    assert_eq!(s.fault_count, 1);
    assert_eq!(s.info_count, 0);
    assert_eq!(s.debug_count, 1);
}
