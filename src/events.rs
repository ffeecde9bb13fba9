//! Structured events and their enumerations.
use vstd::prelude::*;
use crate::text::{lower_of, to_lowercase, str_eq};

verus! {

/// Type of a log message from the unified log.
#[derive(Clone, Copy, Debug, PartialEq, Eq, Hash, Structural)]
pub enum MessageType {
    Error,
    Fault,
    Info,
    Debug,
}

/// Memory pressure levels, ordered from least to most severe.
#[derive(Clone, Copy, Debug, PartialEq, Eq, Hash, PartialOrd, Ord, Structural)]
pub enum MemoryPressure {
    Normal,
    Warning,
    Critical,
}

/// Severity of an insight or alert, ordered from least to most severe.
#[derive(Clone, Copy, Debug, PartialEq, Eq, Hash, PartialOrd, Ord, Structural)]
pub enum Severity {
    Info,
    Warning,
    Critical,
}

/// Free memory below this many megabytes is critical pressure.
pub const CRITICAL_FREE_MB: u64 = 500;

/// Free memory below this many megabytes is a pressure warning.
pub const WARNING_FREE_MB: u64 = 2000;

impl MemoryPressure {
    pub open spec fn rank(self) -> nat {
        match self {
            MemoryPressure::Normal => 0,
            MemoryPressure::Warning => 1,
            MemoryPressure::Critical => 2,
        }
    }

    pub open spec fn from_free_mb_spec(free_mb: u64) -> MemoryPressure {
        if free_mb < CRITICAL_FREE_MB {
            MemoryPressure::Critical
        } else if free_mb < WARNING_FREE_MB {
            MemoryPressure::Warning
        } else {
            MemoryPressure::Normal
        }
    }

    /// Estimates pressure from free memory when the tool reports no level.
    pub fn from_free_mb(free_mb: u64) -> (r: MemoryPressure)
        ensures
            r == Self::from_free_mb_spec(free_mb),
    {
        if free_mb < CRITICAL_FREE_MB {
            MemoryPressure::Critical
        } else if free_mb < WARNING_FREE_MB {
            MemoryPressure::Warning
        } else {
            MemoryPressure::Normal
        }
    }

    /// The level that an already lower-cased label names; unknown labels are
    /// normal.
    pub open spec fn from_label_lower_spec(s: Seq<char>) -> MemoryPressure {
        if s == "critical"@ {
            MemoryPressure::Critical
        } else if s == "warning"@ {
            MemoryPressure::Warning
        } else {
            MemoryPressure::Normal
        }
    }

    pub fn from_label_lower(s: &str) -> (r: MemoryPressure)
        ensures
            r == Self::from_label_lower_spec(s@),
    {
        if str_eq(s, "critical") {
            MemoryPressure::Critical
        } else if str_eq(s, "warning") {
            MemoryPressure::Warning
        } else {
            MemoryPressure::Normal
        }
    }

    /// The level that a label reported by the metrics tool names, in any
    /// letter case; unknown labels are normal.
    pub fn from_label(s: &str) -> (r: MemoryPressure)
        ensures
            r == Self::from_label_lower_spec(lower_of(s@)),
    {
        let lower = to_lowercase(s);
        Self::from_label_lower(lower.as_str())
    }

    /// The pressure of a metrics sample: the reported label when there is
    /// one, else an estimate from free memory, else normal.
    pub fn estimate(label: Option<&str>, free_mb: Option<u64>) -> (r: MemoryPressure)
        ensures
            label matches Some(l) ==> r == Self::from_label_lower_spec(lower_of(l@)),
            label is None && free_mb is Some ==> r == Self::from_free_mb_spec(free_mb->0),
            label is None && free_mb is None ==> r == MemoryPressure::Normal,
    {
        match label {
            Some(l) => Self::from_label(l),
            None => match free_mb {
                Some(f) => Self::from_free_mb(f),
                None => MemoryPressure::Normal,
            },
        }
    }

    /// Whether `self` is at least as severe as `threshold`.
    pub fn at_least(self, threshold: MemoryPressure) -> (r: bool)
        ensures
            r == (self.rank() >= threshold.rank()),
    {
        let a: u8 = match self {
            MemoryPressure::Normal => 0,
            MemoryPressure::Warning => 1,
            MemoryPressure::Critical => 2,
        };
        let b: u8 = match threshold {
            MemoryPressure::Normal => 0,
            MemoryPressure::Warning => 1,
            MemoryPressure::Critical => 2,
        };
        a >= b
    }
}

impl MessageType {
    /// The message type named by an already lower-cased word.
    pub open spec fn from_lower_spec(s: Seq<char>) -> Option<MessageType> {
        if s == "error"@ {
            Some(MessageType::Error)
        } else if s == "fault"@ {
            Some(MessageType::Fault)
        } else if s == "info"@ {
            Some(MessageType::Info)
        } else if s == "debug"@ {
            Some(MessageType::Debug)
        } else {
            None
        }
    }

    /// The message type named by `s` in any letter case.
    pub open spec fn parse_spec(s: Seq<char>) -> Option<MessageType> {
        Self::from_lower_spec(lower_of(s))
    }

    /// The message type named by a lower-case word, if any.
    pub fn from_lower(s: &str) -> (r: Option<MessageType>)
        ensures
            r == Self::from_lower_spec(s@),
    {
        if str_eq(s, "error") {
            Some(MessageType::Error)
        } else if str_eq(s, "fault") {
            Some(MessageType::Fault)
        } else if str_eq(s, "info") {
            Some(MessageType::Info)
        } else if str_eq(s, "debug") {
            Some(MessageType::Debug)
        } else {
            None
        }
    }

    /// The message type named by `s` in any letter case, if any.
    pub fn parse(s: &str) -> (r: Option<MessageType>)
        ensures
            r == Self::parse_spec(s@),
    {
        let lower = to_lowercase(s);
        Self::from_lower(lower.as_str())
    }

    /// Errors and faults are the message types that count as errors.
    pub open spec fn is_error_like_spec(self) -> bool {
        self == MessageType::Error || self == MessageType::Fault
    }

    pub fn is_error_like(self) -> (r: bool)
        ensures
            r == self.is_error_like_spec(),
    {
        match self {
            MessageType::Error | MessageType::Fault => true,
            _ => false,
        }
    }
}

} // verus!
