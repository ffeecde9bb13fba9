use eyes::config::{
    AIBackendConfig, AIConfig, AlertsConfig, BufferConfig, Config, MetricsConfig, TriggersConfig,
};
use eyes::error::ConfigError;
use eyes::events::MemoryPressure;
use std::time::Duration;

#[test]
fn test_default_config() {
    let config = Config::default();
    assert_eq!(
        config.logging.predicate,
        "messageType == error OR messageType == fault"
    );
    assert_eq!(config.metrics.interval_seconds, 5);
    assert_eq!(config.buffer.max_age_seconds, 60);
    assert_eq!(config.buffer.max_size, 1000);
    assert_eq!(config.triggers.error_threshold, 5);
    assert_eq!(config.triggers.error_window_seconds, 10);
    assert_eq!(config.triggers.memory_threshold, MemoryPressure::Warning);
    assert_eq!(config.alerts.rate_limit_per_minute, 3);

    assert!(config.validate().is_ok());
}

#[test]
fn config_new_is_default_and_valid() {
    let config = Config::new();
    assert_eq!(config.metrics.interval_seconds, 5);
    match &config.ai.backend {
        AIBackendConfig::Ollama { endpoint, model } => {
            assert_eq!(endpoint, "http://localhost:11434");
            assert_eq!(model, "llama3");
        }
        _ => panic!("Expected Ollama backend"),
    }
    assert!(config.validate().is_ok());
}

#[test]
fn test_config_validation_zero_metrics_interval() {
    let config = Config {
        metrics: MetricsConfig {
            interval_seconds: 0,
        },
        ..Default::default()
    };
    assert!(config.validate().is_err());
}

#[test]
fn test_config_validation_zero_buffer_age() {
    let config = Config {
        buffer: BufferConfig {
            max_age_seconds: 0,
            max_size: 1000,
        },
        ..Default::default()
    };
    assert!(config.validate().is_err());
}

#[test]
fn test_config_validation_zero_buffer_size() {
    let config = Config {
        buffer: BufferConfig {
            max_age_seconds: 60,
            max_size: 0,
        },
        ..Default::default()
    };
    assert!(config.validate().is_err());
}

#[test]
fn test_config_validation_zero_error_threshold() {
    let config = Config {
        triggers: TriggersConfig {
            error_threshold: 0,
            error_window_seconds: 10,
            memory_threshold: MemoryPressure::Warning,
        },
        ..Default::default()
    };
    assert!(config.validate().is_err());
}

#[test]
fn test_config_validation_zero_error_window() {
    let config = Config {
        triggers: TriggersConfig {
            error_threshold: 5,
            error_window_seconds: 0,
            memory_threshold: MemoryPressure::Warning,
        },
        ..Default::default()
    };
    assert!(config.validate().is_err());
}

#[test]
fn test_config_validation_zero_alert_rate_limit() {
    let config = Config {
        alerts: AlertsConfig {
            rate_limit_per_minute: 0,
        },
        ..Default::default()
    };
    assert!(config.validate().is_err());
}

#[test]
fn test_config_validation_empty_ollama_endpoint() {
    let config = Config {
        ai: AIConfig {
            backend: AIBackendConfig::Ollama {
                endpoint: String::new(),
                model: "llama3".to_string(),
            },
        },
        ..Default::default()
    };
    assert!(config.validate().is_err());
}

#[test]
fn test_config_validation_empty_ollama_model() {
    let config = Config {
        ai: AIConfig {
            backend: AIBackendConfig::Ollama {
                endpoint: "http://localhost:11434".to_string(),
                model: String::new(),
            },
        },
        ..Default::default()
    };
    assert!(config.validate().is_err());
}

#[test]
fn test_config_validation_empty_openai_api_key() {
    let config = Config {
        ai: AIConfig {
            backend: AIBackendConfig::OpenAI {
                api_key: String::new(),
                model: "gpt-4".to_string(),
            },
        },
        ..Default::default()
    };
    assert!(config.validate().is_err());
}

#[test]
fn test_config_validation_empty_openai_model() {
    let config = Config {
        ai: AIConfig {
            backend: AIBackendConfig::OpenAI {
                api_key: "sk-test".to_string(),
                model: String::new(),
            },
        },
        ..Default::default()
    };
    assert!(config.validate().is_err());
}

#[test]
fn config_validation_accepts_openai_backend() {
    let config = Config {
        ai: AIConfig {
            backend: AIBackendConfig::OpenAI {
                api_key: "sk-test".to_string(),
                model: "gpt-4".to_string(),
            },
        },
        ..Default::default()
    };
    assert!(config.validate().is_ok());
}

#[test]
fn config_validation_error_is_a_validation_error() {
    let config = Config {
        metrics: MetricsConfig {
            interval_seconds: 0,
        },
        ..Default::default()
    };
    match config.validate() {
        Err(ConfigError::ValidationError(msg)) => {
            assert_eq!(msg, "metrics.interval_seconds must be at least 1")
        }
        _ => panic!("Expected ValidationError"),
    }
}

#[test]
fn test_config_duration_helpers() {
    let config = Config::default();
    assert_eq!(config.metrics_interval(), Duration::from_secs(5));
    assert_eq!(config.buffer_max_age(), Duration::from_secs(60));
    assert_eq!(config.error_window(), Duration::from_secs(10));
}
