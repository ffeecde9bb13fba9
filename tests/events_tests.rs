use eyes::events::{MemoryPressure, MessageType, Severity};

#[test]
fn test_memory_pressure_ordering() {
    assert!(MemoryPressure::Normal < MemoryPressure::Warning);
    assert!(MemoryPressure::Warning < MemoryPressure::Critical);
    assert!(MemoryPressure::Normal < MemoryPressure::Critical);
}

#[test]
fn test_severity_ordering() {
    assert!(Severity::Info < Severity::Warning);
    assert!(Severity::Warning < Severity::Critical);
    assert!(Severity::Info < Severity::Critical);
}

#[test]
fn memory_pressure_from_free_memory_thresholds() {
    assert_eq!(MemoryPressure::from_free_mb(0), MemoryPressure::Critical);
    assert_eq!(MemoryPressure::from_free_mb(499), MemoryPressure::Critical);
    assert_eq!(MemoryPressure::from_free_mb(500), MemoryPressure::Warning);
    assert_eq!(MemoryPressure::from_free_mb(1999), MemoryPressure::Warning);
    assert_eq!(MemoryPressure::from_free_mb(2000), MemoryPressure::Normal);
    assert_eq!(MemoryPressure::from_free_mb(16000), MemoryPressure::Normal);
}

#[test]
fn memory_pressure_at_least() {
    assert!(MemoryPressure::Critical.at_least(MemoryPressure::Warning));
    assert!(MemoryPressure::Warning.at_least(MemoryPressure::Warning));
    assert!(!MemoryPressure::Normal.at_least(MemoryPressure::Warning));
}

#[test]
fn message_type_parse_ignores_case() {
    assert_eq!(MessageType::parse("Error"), Some(MessageType::Error));
    assert_eq!(MessageType::parse("FAULT"), Some(MessageType::Fault));
    assert_eq!(MessageType::parse("info"), Some(MessageType::Info));
    assert_eq!(MessageType::parse("Debug"), Some(MessageType::Debug));
    assert_eq!(MessageType::parse("Notice"), None);
    assert_eq!(MessageType::parse(""), None);
}

#[test]
fn message_type_from_lower_needs_lower_case() {
    assert_eq!(MessageType::from_lower("error"), Some(MessageType::Error));
    assert_eq!(MessageType::from_lower("Error"), None);
    assert!(MessageType::Fault.is_error_like());
    assert!(!MessageType::Info.is_error_like());
}

#[test]
fn memory_pressure_from_label() {
    assert_eq!(MemoryPressure::from_label("Critical"), MemoryPressure::Critical);
    assert_eq!(MemoryPressure::from_label("WARNING"), MemoryPressure::Warning);
    assert_eq!(MemoryPressure::from_label("normal"), MemoryPressure::Normal);
    assert_eq!(MemoryPressure::from_label("unknown"), MemoryPressure::Normal);
    assert_eq!(MemoryPressure::from_label_lower("Critical"), MemoryPressure::Normal);
}

#[test]
fn memory_pressure_estimate_prefers_label() {
    assert_eq!(MemoryPressure::estimate(Some("Warning"), Some(100)), MemoryPressure::Warning);
    assert_eq!(MemoryPressure::estimate(None, Some(100)), MemoryPressure::Critical);
    assert_eq!(MemoryPressure::estimate(None, Some(1500)), MemoryPressure::Warning);
    assert_eq!(MemoryPressure::estimate(None, None), MemoryPressure::Normal);
}
