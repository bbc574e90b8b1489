//! The values that travel between a client and the server: service
//! configurations and states, log entries, and the messages of both directions.

use std::collections::HashMap;
use std::time::SystemTime;
use vstd::prelude::*;

verus! {

/// `std::time::SystemTime`, carried in log entries and never inspected.
#[verifier::external_type_specification]
#[verifier::external_body]
pub struct ExSystemTime(SystemTime);

/// Where a service stands.
#[derive(Copy, Clone, Debug, PartialEq, Eq, Structural)]
pub enum ServiceStatus {
    /// Never started, or ended after it was asked to stop.
    Down,
    /// A process is running.
    Running,
    /// A process has been told to terminate and has not ended yet.
    Stopping,
    /// The process ended on its own.
    Dead,
    /// The last start failed.
    Miscarried,
    /// The process is suspended.
    Paused,
}

/// The stream that a log line belongs to.
#[derive(Copy, Clone, Debug, PartialEq, Eq, Structural)]
pub enum LogKind {
    /// Standard output of the service.
    Out,
    /// Standard error of the service, or the reason why it did not start.
    Error,
    /// Text sent to the standard input of the service.
    In,
}

/// One line of a service's log.
#[derive(Debug)]
pub struct LogEntry {
    pub text: String,
    pub kind: LogKind,
    pub time: SystemTime,
}

/// A log entry as a value.
pub struct LogEntryView {
    pub text: Seq<char>,
    pub kind: LogKind,
    pub time: SystemTime,
}

impl View for LogEntry {
    type V = LogEntryView;

    open spec fn view(&self) -> LogEntryView {
        LogEntryView { text: self.text@, kind: self.kind, time: self.time }
    }
}

impl Clone for LogEntry {
    fn clone(&self) -> (copy: LogEntry)
        ensures
            copy@ == self@,
    {
        LogEntry { text: self.text.clone(), kind: self.kind, time: self.time }
    }
}

/// The views of a list of log entries.
pub open spec fn log_views(logs: Seq<LogEntry>) -> Seq<LogEntryView> {
    logs.map_values(|log: LogEntry| log@)
}

/// How a service is to be run.
#[derive(Debug)]
pub struct ServiceConfig {
    pub name: String,
    pub executable: String,
    pub working_directory: String,
    pub arguments: Vec<String>,
    pub environment: HashMap<String, String>,
    pub auto_start: bool,
    pub show_timestamp: bool,
}

/// A service configuration as a value.
pub struct ServiceConfigView {
    pub name: Seq<char>,
    pub executable: Seq<char>,
    pub working_directory: Seq<char>,
    pub arguments: Seq<Seq<char>>,
    pub environment: Map<String, String>,
    pub auto_start: bool,
    pub show_timestamp: bool,
}

impl View for ServiceConfig {
    type V = ServiceConfigView;

    open spec fn view(&self) -> ServiceConfigView {
        ServiceConfigView {
            name: self.name@,
            executable: self.executable@,
            working_directory: self.working_directory@,
            arguments: self.arguments@.map_values(|argument: String| argument@),
            environment: self.environment@,
            auto_start: self.auto_start,
            show_timestamp: self.show_timestamp,
        }
    }
}

impl Clone for ServiceConfig {
    fn clone(&self) -> (copy: ServiceConfig)
        ensures
            copy@ == self@,
    {
        let copy = ServiceConfig {
            name: self.name.clone(),
            executable: self.executable.clone(),
            working_directory: self.working_directory.clone(),
            arguments: self.arguments.clone(),
            environment: self.environment.clone(),
            auto_start: self.auto_start,
            show_timestamp: self.show_timestamp,
        };
        assert(copy@.arguments =~= self@.arguments);
        copy
    }
}

/// What the server tells a client. A service is known by its 128-bit identifier.
#[derive(Debug)]
pub enum NetMessageS2C {
    UpdateServiceConfig { id: u128, config: ServiceConfig },
    UpdateServiceStatus { id: u128, status: ServiceStatus },
    RemoveService(u128),
    ClearLogs,
    AddLog(LogEntry),
}

/// A message to a client as a value.
pub enum NetMessageS2CView {
    UpdateServiceConfig { id: u128, config: ServiceConfigView },
    UpdateServiceStatus { id: u128, status: ServiceStatus },
    RemoveService(u128),
    ClearLogs,
    AddLog(LogEntryView),
}

impl View for NetMessageS2C {
    type V = NetMessageS2CView;

    open spec fn view(&self) -> NetMessageS2CView {
        match *self {
            NetMessageS2C::UpdateServiceConfig { id, config } => {
                NetMessageS2CView::UpdateServiceConfig { id, config: config@ }
            },
            NetMessageS2C::UpdateServiceStatus { id, status } => {
                NetMessageS2CView::UpdateServiceStatus { id, status }
            },
            NetMessageS2C::RemoveService(id) => NetMessageS2CView::RemoveService(id),
            NetMessageS2C::ClearLogs => NetMessageS2CView::ClearLogs,
            NetMessageS2C::AddLog(log) => NetMessageS2CView::AddLog(log@),
        }
    }
}

impl Clone for NetMessageS2C {
    fn clone(&self) -> (copy: NetMessageS2C)
        ensures
            copy@ == self@,
    {
        match self {
            NetMessageS2C::UpdateServiceConfig { id, config } => {
                NetMessageS2C::UpdateServiceConfig { id: *id, config: config.clone() }
            },
            NetMessageS2C::UpdateServiceStatus { id, status } => {
                NetMessageS2C::UpdateServiceStatus { id: *id, status: *status }
            },
            NetMessageS2C::RemoveService(id) => NetMessageS2C::RemoveService(*id),
            NetMessageS2C::ClearLogs => NetMessageS2C::ClearLogs,
            NetMessageS2C::AddLog(log) => NetMessageS2C::AddLog(log.clone()),
        }
    }
}

/// What a client asks of the server.
#[derive(Debug)]
pub enum NetMessageC2S {
    StartService(u128),
    StopService(u128),
    KillService(u128),
    PauseService(u128),
    UnpauseService(u128),
    MonitorLog(u128),
    CancelMonitorLog,
    UpdateServiceConfig { id: u128, config: ServiceConfig },
    RemoveService(u128),
    SendIn(String),
}

} // verus!
