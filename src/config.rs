//! Configuration of the agent: defaults and validation.
use vstd::prelude::*;
use crate::error::ConfigError;
use crate::events::MemoryPressure;

verus! {

pub uninterp spec fn duration_of_secs(secs: u64) -> core::time::Duration;

/// `Duration::from_secs` builds the duration of exactly `secs` seconds; the
/// value depends on `secs` alone.
pub assume_specification[ core::time::Duration::from_secs ](secs: u64) -> (r: core::time::Duration)
    ensures
        r == duration_of_secs(secs),
;

/// Log filtering.
#[derive(Clone, Debug)]
pub struct LoggingConfig {
    /// Predicate filter for the log stream.
    pub predicate: String,
}

/// Metrics collection.
#[derive(Clone, Debug)]
pub struct MetricsConfig {
    /// Seconds between metrics samples.
    pub interval_seconds: u64,
}

/// The rolling event buffer.
#[derive(Clone, Debug)]
pub struct BufferConfig {
    /// Oldest event kept, in seconds.
    pub max_age_seconds: u64,
    /// Most events kept.
    pub max_size: usize,
}

/// Trigger thresholds.
#[derive(Clone, Debug)]
pub struct TriggersConfig {
    /// Errors within the window that trigger analysis.
    pub error_threshold: usize,
    /// Window for counting errors, in seconds.
    pub error_window_seconds: u64,
    /// Memory pressure that triggers analysis.
    pub memory_threshold: MemoryPressure,
}

/// Analysis backend selection.
#[derive(Clone, Debug)]
pub enum AIBackendConfig {
    /// A local Ollama instance.
    Ollama { endpoint: String, model: String },
    /// The OpenAI API.
    OpenAI { api_key: String, model: String },
}

/// Analysis settings.
#[derive(Clone, Debug)]
pub struct AIConfig {
    pub backend: AIBackendConfig,
}

/// Alert settings.
#[derive(Clone, Debug)]
pub struct AlertsConfig {
    /// Most alerts per minute.
    pub rate_limit_per_minute: usize,
}

/// The agent's whole configuration.
#[derive(Clone, Debug)]
pub struct Config {
    pub logging: LoggingConfig,
    pub metrics: MetricsConfig,
    pub buffer: BufferConfig,
    pub triggers: TriggersConfig,
    pub ai: AIConfig,
    pub alerts: AlertsConfig,
}

pub fn default_log_predicate() -> (r: String)
    ensures
        r@ == "messageType == error OR messageType == fault"@,
{
    String::from_str("messageType == error OR messageType == fault")
}

pub fn default_metrics_interval_secs() -> (r: u64)
    ensures
        r == 5,
{
    5
}

pub fn default_buffer_max_age_secs() -> (r: u64)
    ensures
        r == 60,
{
    60
}

pub fn default_buffer_max_size() -> (r: usize)
    ensures
        r == 1000,
{
    1000
}

pub fn default_error_threshold() -> (r: usize)
    ensures
        r == 5,
{
    5
}

pub fn default_error_window_secs() -> (r: u64)
    ensures
        r == 10,
{
    10
}

pub fn default_memory_threshold() -> (r: MemoryPressure)
    ensures
        r == MemoryPressure::Warning,
{
    MemoryPressure::Warning
}

pub fn default_alert_rate_limit() -> (r: usize)
    ensures
        r == 3,
{
    3
}

pub fn default_ollama_endpoint() -> (r: String)
    ensures
        r@ == "http://localhost:11434"@,
{
    String::from_str("http://localhost:11434")
}

pub fn default_ollama_model() -> (r: String)
    ensures
        r@ == "llama3"@,
{
    String::from_str("llama3")
}

pub fn default_openai_model() -> (r: String)
    ensures
        r@ == "gpt-4"@,
{
    String::from_str("gpt-4")
}

impl Default for AIBackendConfig {
    fn default() -> (r: Self)
        ensures
            r matches AIBackendConfig::Ollama { endpoint, model } && endpoint@
                == "http://localhost:11434"@ && model@ == "llama3"@,
    {
        AIBackendConfig::Ollama { endpoint: default_ollama_endpoint(), model: default_ollama_model() }
    }
}

impl Default for AIConfig {
    fn default() -> (r: Self)
        ensures
            r.backend matches AIBackendConfig::Ollama { endpoint, model } && endpoint@
                == "http://localhost:11434"@ && model@ == "llama3"@,
    {
        AIConfig { backend: AIBackendConfig::default() }
    }
}

impl Default for LoggingConfig {
    fn default() -> (r: Self)
        ensures
            r.predicate@ == "messageType == error OR messageType == fault"@,
    {
        LoggingConfig { predicate: default_log_predicate() }
    }
}

impl Default for MetricsConfig {
    fn default() -> (r: Self)
        ensures
            r.interval_seconds == 5,
    {
        MetricsConfig { interval_seconds: default_metrics_interval_secs() }
    }
}

impl Default for BufferConfig {
    fn default() -> (r: Self)
        ensures
            r.max_age_seconds == 60,
            r.max_size == 1000,
    {
        BufferConfig {
            max_age_seconds: default_buffer_max_age_secs(),
            max_size: default_buffer_max_size(),
        }
    }
}

impl Default for TriggersConfig {
    fn default() -> (r: Self)
        ensures
            r.error_threshold == 5,
            r.error_window_seconds == 10,
            r.memory_threshold == MemoryPressure::Warning,
    {
        TriggersConfig {
            error_threshold: default_error_threshold(),
            error_window_seconds: default_error_window_secs(),
            memory_threshold: default_memory_threshold(),
        }
    }
}

impl Default for AlertsConfig {
    fn default() -> (r: Self)
        ensures
            r.rate_limit_per_minute == 3,
    {
        AlertsConfig { rate_limit_per_minute: default_alert_rate_limit() }
    }
}

impl Default for Config {
    fn default() -> (r: Self)
        ensures
            r.is_default(),
    {
        Config {
            logging: LoggingConfig::default(),
            metrics: MetricsConfig::default(),
            buffer: BufferConfig::default(),
            triggers: TriggersConfig::default(),
            ai: AIConfig::default(),
            alerts: AlertsConfig::default(),
        }
    }
}

impl Config {
    /// Every field holds its default value.
    pub open spec fn is_default(self) -> bool {
        &&& self.logging.predicate@ == "messageType == error OR messageType == fault"@
        &&& self.metrics.interval_seconds == 5
        &&& self.buffer.max_age_seconds == 60
        &&& self.buffer.max_size == 1000
        &&& self.triggers.error_threshold == 5
        &&& self.triggers.error_window_seconds == 10
        &&& self.triggers.memory_threshold == MemoryPressure::Warning
        &&& self.alerts.rate_limit_per_minute == 3
        &&& self.ai.backend matches AIBackendConfig::Ollama { endpoint, model } && endpoint@
            == "http://localhost:11434"@ && model@ == "llama3"@
    }

    /// Every count and period is at least one, and the backend's settings
    /// are not empty.
    pub open spec fn valid(self) -> bool {
        &&& self.metrics.interval_seconds >= 1
        &&& self.buffer.max_age_seconds >= 1
        &&& self.buffer.max_size >= 1
        &&& self.triggers.error_threshold >= 1
        &&& self.triggers.error_window_seconds >= 1
        &&& self.alerts.rate_limit_per_minute >= 1
        &&& match self.ai.backend {
            AIBackendConfig::Ollama { endpoint, model } => endpoint@.len() > 0 && model@.len() > 0,
            AIBackendConfig::OpenAI { api_key, model } => api_key@.len() > 0 && model@.len() > 0,
        }
    }

    /// The default configuration.
    pub fn new() -> (r: Config)
        ensures
            r.is_default(),
            r.valid(),
    {
        proof {
            reveal_strlit("http://localhost:11434");
            reveal_strlit("llama3");
        }
        Config::default()
    }

    /// Checks every value's range; the error names the first one found out
    /// of range.
    pub fn validate(&self) -> (r: Result<(), ConfigError>)
        ensures
            r is Ok <==> self.valid(),
            r is Err ==> r matches Err(ConfigError::ValidationError(_)),
    {
        if self.metrics.interval_seconds == 0 {
            return Err(ConfigError::ValidationError(String::from_str("metrics.interval_seconds must be at least 1")));
        }
        if self.buffer.max_age_seconds == 0 {
            return Err(ConfigError::ValidationError(String::from_str("buffer.max_age_seconds must be at least 1")));
        }
        if self.buffer.max_size == 0 {
            return Err(ConfigError::ValidationError(String::from_str("buffer.max_size must be at least 1")));
        }
        if self.triggers.error_threshold == 0 {
            return Err(ConfigError::ValidationError(String::from_str("triggers.error_threshold must be at least 1")));
        }
        if self.triggers.error_window_seconds == 0 {
            return Err(ConfigError::ValidationError(String::from_str("triggers.error_window_seconds must be at least 1")));
        }
        if self.alerts.rate_limit_per_minute == 0 {
            return Err(ConfigError::ValidationError(String::from_str("alerts.rate_limit_per_minute must be at least 1")));
        }
        match &self.ai.backend {
            AIBackendConfig::Ollama { endpoint, model } => {
                if endpoint.as_str().is_empty() {
                    return Err(ConfigError::ValidationError(String::from_str("ai.endpoint cannot be empty")));
                }
                if model.as_str().is_empty() {
                    return Err(ConfigError::ValidationError(String::from_str("ai.model cannot be empty")));
                }
            },
            AIBackendConfig::OpenAI { api_key, model } => {
                if api_key.as_str().is_empty() {
                    return Err(ConfigError::ValidationError(String::from_str("ai.api_key cannot be empty")));
                }
                if model.as_str().is_empty() {
                    return Err(ConfigError::ValidationError(String::from_str("ai.model cannot be empty")));
                }
            },
        }
        Ok(())
    }

    /// The metrics interval as a duration.
    pub fn metrics_interval(&self) -> (r: core::time::Duration)
        ensures
            r == duration_of_secs(self.metrics.interval_seconds),
    {
        core::time::Duration::from_secs(self.metrics.interval_seconds)
    }

    /// The buffer's maximum age as a duration.
    pub fn buffer_max_age(&self) -> (r: core::time::Duration)
        ensures
            r == duration_of_secs(self.buffer.max_age_seconds),
    {
        core::time::Duration::from_secs(self.buffer.max_age_seconds)
    }

    /// The error window as a duration.
    pub fn error_window(&self) -> (r: core::time::Duration)
        ensures
            r == duration_of_secs(self.triggers.error_window_seconds),
    {
        core::time::Duration::from_secs(self.triggers.error_window_seconds)
    }
}

} // verus!
