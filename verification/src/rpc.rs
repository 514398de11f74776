//! Messages exchanged between the scheduler and a worker over the framed
//! bidirectional RPC, and the records they carry.

use vstd::prelude::*;

use crate::json::JsonObj;

verus! {

/// A tenant script: name unique within the tenant, source immutable once
/// published.
#[derive(Clone, Debug, PartialEq, Eq)]
pub struct Script {
    pub script_id: u64,
    pub name: String,
    pub source_text: String,
    pub enabled: bool,
    pub plugin_id: Option<u64>,
    pub plugin_version: Option<u64>,
}

/// Paid tier of a tenant; absence means the free tier.
#[derive(Clone, Copy, Debug, PartialEq, Eq, Structural)]
pub enum PremiumSlotTier {
    Lite,
    Premium,
}

/// One event delivery to a tenant's VM.
#[derive(Clone, Debug, PartialEq, Eq)]
pub struct VmDispatchEvent {
    pub name: String,
    pub seq: u64,
    pub value: JsonObj,
}

/// Ask a worker to tear down the tenant's current VM and start a fresh one
/// running the given script set.
#[derive(Clone, Debug, PartialEq, Eq)]
pub struct CreateScriptsVmReq {
    pub seq: u64,
    pub premium_tier: Option<PremiumSlotTier>,
    pub guild_id: u64,
    pub scripts: Vec<Script>,
}

/// Messages inbound to a worker.
#[derive(Clone, Debug, PartialEq, Eq)]
pub enum SchedulerMessage {
    Dispatch(VmDispatchEvent),
    /// Stops the current VM and creates a new one to run the provided scripts.
    CreateScriptsVm(CreateScriptsVmReq),
    Complete,
    Shutdown,
}

impl SchedulerMessage {
    /// The tenant a message addresses, where the message itself names one.
    pub fn guild_id(&self) -> (r: Option<u64>)
        ensures
            r == (match self {
                SchedulerMessage::CreateScriptsVm(v) => Some(v.guild_id),
                _ => None::<u64>,
            }),
    {
        match self {
            SchedulerMessage::Dispatch(_) => None,
            SchedulerMessage::CreateScriptsVm(v) => Some(v.guild_id),
            SchedulerMessage::Complete => None,
            SchedulerMessage::Shutdown => None,
        }
    }

    /// Stable label for tracing spans.
    pub fn span_name(&self) -> (r: &'static str)
        ensures
            self is Dispatch ==> r@ == "SchedulerMessage::Dispatch"@,
            self is CreateScriptsVm ==> r@ == "SchedulerMessage::CreateScriptsVm"@,
            self is Complete ==> r@ == "SchedulerMessage::Complete"@,
            self is Shutdown ==> r@ == "SchedulerMessage::Shutdown"@,
    {
        match self {
            SchedulerMessage::Dispatch(_) => "SchedulerMessage::Dispatch",
            SchedulerMessage::CreateScriptsVm(_) => "SchedulerMessage::CreateScriptsVm",
            SchedulerMessage::Complete => "SchedulerMessage::Complete",
            SchedulerMessage::Shutdown => "SchedulerMessage::Shutdown",
        }
    }
}

/// Why a VM was torn down.
#[derive(Clone, Copy, Debug, PartialEq, Eq, Structural)]
pub enum ShutdownReason {
    Runaway,
    OutOfMemory,
    Other,
    TooManyInvalidRequests,
}

/// Counter updates reported by a VM. Gauge updates carry floating-point
/// values and stay outside this crate; counter metrics keep their label
/// pairs.
#[derive(Clone, Copy, Debug, PartialEq, Eq, Structural)]
pub enum CounterEvent {
    Incr(u64),
    Absolute(u64),
}

/// Metadata a VM reports when a script has started.
#[derive(Clone, Debug, PartialEq, Eq)]
pub struct ScriptMeta {
    pub script_id: u64,
    pub name: String,
}

/// A script-visible log line, forwarded to the external log sink.
#[derive(Clone, Debug, PartialEq, Eq)]
pub struct LogEntry {
    pub guild_id: u64,
    pub message: String,
}

/// Messages outbound from a worker.
#[derive(Clone, Debug, PartialEq, Eq)]
pub enum WorkerMessage {
    Ack(u64),
    Shutdown(ShutdownReason),
    ScriptStarted(ScriptMeta),
    ScriptsInit,
    NonePending,
    TaskScheduled,
    GuildLog(LogEntry),
    Hello(u64),
    Metric(String, CounterEvent, Vec<(String, String)>),
}

impl WorkerMessage {
    /// Stable label naming the message kind.
    pub fn name(&self) -> (r: &'static str)
        ensures
            self is Ack ==> r@ == "Ack"@,
            self is Shutdown ==> r@ == "Shutdown"@,
            self is ScriptStarted ==> r@ == "ScriptStarted"@,
            self is ScriptsInit ==> r@ == "ScriptsInit"@,
            self is NonePending ==> r@ == "NonePending"@,
            self is TaskScheduled ==> r@ == "TaskScheduled"@,
            self is GuildLog ==> r@ == "GuildLog"@,
            self is Hello ==> r@ == "Hello"@,
            self is Metric ==> r@ == "Metric"@,
    {
        match self {
            WorkerMessage::Ack(_) => "Ack",
            WorkerMessage::Shutdown(_) => "Shutdown",
            WorkerMessage::ScriptStarted(_) => "ScriptStarted",
            WorkerMessage::ScriptsInit => "ScriptsInit",
            WorkerMessage::NonePending => "NonePending",
            WorkerMessage::TaskScheduled => "TaskScheduled",
            WorkerMessage::GuildLog(_) => "GuildLog",
            WorkerMessage::Hello(_) => "Hello",
            WorkerMessage::Metric(_, _, _) => "Metric",
        }
    }
}

} // verus!
