//! One managed service: its state, and what each request or process event does
//! to it.

use crate::common::{
    log_views, LogEntry, LogEntryView, LogKind, ServiceConfig, ServiceConfigView, ServiceStatus,
};
use std::time::SystemTime;
use vstd::prelude::*;

verus! {

/// The signal that asks a process to terminate.
pub const SIGTERM: i32 = 15;

/// The signal that suspends a process.
pub const SIGSTOP: i32 = 19;

/// The signal that resumes a suspended process.
pub const SIGCONT: i32 = 18;

/// A start is attempted in every state but these two.
pub open spec fn startable(status: ServiceStatus) -> bool {
    status != ServiceStatus::Running && status != ServiceStatus::Stopping
}

/// The states in which a process certainly exists.
pub open spec fn has_process(status: ServiceStatus) -> bool {
    status == ServiceStatus::Running || status == ServiceStatus::Stopping || status
        == ServiceStatus::Paused
}

/// A managed service. `process` is the handle under which the owner of the
/// server keeps the child process, and `stopping` says that an end of the
/// process is wanted.
#[derive(Debug)]
pub struct Service {
    pub id: u128,
    pub process: Option<u64>,
    pub status: ServiceStatus,
    pub logs: Vec<LogEntry>,
    pub config: ServiceConfig,
    pub stopping: bool,
}

/// A service as a value.
#[verifier::ext_equal]
pub struct ServiceView {
    pub id: u128,
    pub process: Option<u64>,
    pub status: ServiceStatus,
    pub logs: Seq<LogEntryView>,
    pub config: ServiceConfigView,
    pub stopping: bool,
}

impl View for Service {
    type V = ServiceView;

    open spec fn view(&self) -> ServiceView {
        ServiceView {
            id: self.id,
            process: self.process,
            status: self.status,
            logs: log_views(self.logs@),
            config: self.config@,
            stopping: self.stopping,
        }
    }
}

impl ServiceView {
    /// What holds of every service at all times: a state that speaks of a
    /// process has one, and a service told to stop remembers it.
    pub open spec fn wf(self) -> bool {
        &&& has_process(self.status) ==> self.process is Some
        &&& self.status == ServiceStatus::Stopping ==> self.stopping
    }

    /// A service that was never started.
    pub open spec fn fresh(id: u128, config: ServiceConfigView) -> ServiceView {
        ServiceView {
            id,
            process: None,
            status: ServiceStatus::Down,
            logs: Seq::empty(),
            config,
            stopping: false,
        }
    }

    /// After a start whose launch gave `launched`: the handle of the process,
    /// or the reason for the failure. `None` stands for a start that is not
    /// attempted.
    pub open spec fn started(
        self,
        launched: Option<Result<u64, String>>,
        now: SystemTime,
    ) -> ServiceView {
        match launched {
            None => self,
            Some(Ok(handle)) => ServiceView {
                process: Some(handle),
                status: ServiceStatus::Running,
                logs: Seq::empty(),
                stopping: false,
                ..self
            },
            Some(Err(reason)) => ServiceView {
                status: ServiceStatus::Miscarried,
                logs: seq![LogEntryView { text: reason@, kind: LogKind::Error, time: now }],
                stopping: false,
                ..self
            },
        }
    }

    /// After its process ended.
    pub open spec fn exited(self) -> ServiceView {
        ServiceView {
            process: None,
            status: if self.stopping {
                ServiceStatus::Down
            } else {
                ServiceStatus::Dead
            },
            ..self
        }
    }

    /// With one more line at the end of its log.
    pub open spec fn logged(self, log: LogEntryView) -> ServiceView {
        ServiceView { logs: self.logs.push(log), ..self }
    }

    pub open spec fn with_status(self, status: ServiceStatus) -> ServiceView {
        ServiceView { status, ..self }
    }

    pub open spec fn with_config(self, config: ServiceConfigView) -> ServiceView {
        ServiceView { config, ..self }
    }

    /// With an end of its process wanted.
    pub open spec fn told_to_stop(self) -> ServiceView {
        ServiceView { stopping: true, ..self }
    }
}

/// Whether a start is attempted in this state.
pub fn can_start(status: ServiceStatus) -> (yes: bool)
    ensures
        yes == startable(status),
{
    match status {
        ServiceStatus::Running | ServiceStatus::Stopping => false,
        _ => true,
    }
}

impl Service {
    /// A service with this configuration that was never started.
    pub fn from_config(id: u128, config: ServiceConfig) -> (service: Service)
        ensures
            service@ == ServiceView::fresh(id, config@),
            service@.wf(),
    {
        let service = Service {
            id,
            process: None,
            status: ServiceStatus::Down,
            logs: Vec::new(),
            config,
            stopping: false,
        };
        assert(service@.logs =~= Seq::<LogEntryView>::empty());
        service
    }

    /// Starts the service. `launched` is what launching its process gave, which
    /// is attempted exactly in the states that `can_start` admits. The result
    /// is the handle of a process that the new one replaces.
    pub fn try_start(&mut self, launched: Option<Result<u64, String>>, now: SystemTime) -> (replaced:
        Option<u64>)
        requires
            old(self)@.wf(),
            launched is Some == startable(old(self).status),
        ensures
            final(self)@ == old(self)@.started(launched, now),
            final(self)@.wf(),
            replaced == (if launched matches Some(Ok(_)) {
                old(self).process
            } else {
                None
            }),
    {
        match launched {
            None => None,
            Some(outcome) => {
                self.stopping = false;
                self.logs.clear();
                match outcome {
                    Ok(handle) => {
                        let replaced: Option<u64> = self.process;
                        self.process = Some(handle);
                        self.status = ServiceStatus::Running;
                        assert(self@.logs =~= Seq::<LogEntryView>::empty());
                        replaced
                    },
                    Err(reason) => {
                        self.logs.push(
                            LogEntry { text: reason, kind: LogKind::Error, time: now },
                        );
                        self.status = ServiceStatus::Miscarried;
                        assert(self@.logs =~= old(self)@.started(launched, now).logs);
                        None
                    },
                }
            },
        }
    }

    /// Records that the process ended. The result is its handle.
    pub fn exit(&mut self) -> (ended: Option<u64>)
        ensures
            final(self)@ == old(self)@.exited(),
            final(self)@.wf(),
            ended == old(self).process,
    {
        let ended: Option<u64> = self.process;
        self.process = None;
        self.status = if self.stopping {
            ServiceStatus::Down
        } else {
            ServiceStatus::Dead
        };
        ended
    }

    /// Appends a line to the log.
    pub fn push_log(&mut self, log: LogEntry)
        ensures
            final(self)@ == old(self)@.logged(log@),
    {
        self.logs.push(log);
        assert(self@.logs =~= old(self)@.logs.push(log@));
    }
}

} // verus!
