//! Typed records decoded from broker payloads, and the command shape.
use vstd::prelude::*;

verus! {

/// A message seen on the audited network. Times are microseconds since the
/// Unix epoch.
#[derive(Debug, Clone)]
pub struct InterceptedMessage {
    pub timestamp: i64,
    pub source: String,
    pub destination: String,
    pub protocol: String,
    pub data: String,
    pub size: usize,
}

/// The latest outcome of one kind of test. `packet_rate_bits` holds the raw
/// IEEE-754 bits of the measured rate, when there is one.
#[derive(Debug, Clone)]
pub struct TestResult {
    pub timestamp: i64,
    pub type_: String,
    pub status: String,
    pub details: String,
    pub packet_rate_bits: Option<u64>,
}

#[derive(Debug, Clone)]
pub struct LogEntry {
    pub timestamp: i64,
    pub level: String,
    pub message: String,
    pub source: String,
}

/// A request to make `device` perform `action`.
#[derive(Debug, Clone)]
pub struct Command {
    pub device: String,
    pub action: String,
}

impl InterceptedMessage {
    pub fn duplicate(&self) -> (r: Self)
        ensures
            r == *self,
    {
        InterceptedMessage {
            timestamp: self.timestamp,
            source: self.source.clone(),
            destination: self.destination.clone(),
            protocol: self.protocol.clone(),
            data: self.data.clone(),
            size: self.size,
        }
    }
}

impl TestResult {
    pub fn duplicate(&self) -> (r: Self)
        ensures
            r == *self,
    {
        TestResult {
            timestamp: self.timestamp,
            type_: self.type_.clone(),
            status: self.status.clone(),
            details: self.details.clone(),
            packet_rate_bits: self.packet_rate_bits,
        }
    }
}

impl LogEntry {
    pub fn duplicate(&self) -> (r: Self)
        ensures
            r == *self,
    {
        LogEntry {
            timestamp: self.timestamp,
            level: self.level.clone(),
            message: self.message.clone(),
            source: self.source.clone(),
        }
    }
}

impl Command {
    pub open spec fn is_valid(&self) -> bool {
        self.device@.len() > 0 && self.action@.len() > 0
    }

    /// Both the device and the action are non-empty.
    pub fn validate(&self) -> (r: bool)
        ensures
            r == self.is_valid(),
    {
        !self.device.as_str().is_empty() && !self.action.as_str().is_empty()
    }
}

} // verus!
