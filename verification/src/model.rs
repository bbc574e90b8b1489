//! The server as a mathematical state machine: its state, the messages that
//! reach it, the actions it asks for, and what each message does.

use crate::common::{
    LogEntry, LogEntryView, LogKind, NetMessageC2S, NetMessageS2C, NetMessageS2CView,
    ServiceConfig, ServiceConfigView, ServiceStatus,
};
use crate::ids::{hyphenated, parsed_uuid};
use crate::service::{startable, ServiceView, SIGCONT, SIGSTOP, SIGTERM};
use std::time::SystemTime;
use vstd::prelude::*;

verus! {

/// What the process of a service reports.
#[derive(Debug)]
pub enum ProcessMessage {
    /// It wrote a line.
    Log(LogEntry),
    /// It ended.
    Exit,
}

/// What reaches the server.
#[allow(inconsistent_fields)]
#[derive(Debug)]
pub enum ServerMessage {
    Process { id: u128, message: ProcessMessage },
    ClientConnect(u128),
    ClientMessage { client: u128, message: NetMessageC2S },
    ClientDisconnect(u128),
}

/// What the server asks its owner to do, in this order, after a message.
/// Processes are named by the handles that the owner gave them.
#[derive(Debug)]
pub enum Action {
    /// Send the message to each of these clients.
    Send { to: Vec<u128>, message: NetMessageS2C },
    /// Write the configuration to the file of this name.
    SaveConfig { file_name: String, config: ServiceConfig },
    /// Remove the file of this name.
    DeleteConfig { file_name: String },
    /// Send a signal to a process.
    Signal { process: u64, signal: i32 },
    /// Kill a process.
    Kill { process: u64 },
    /// Write the text to the standard input of a process.
    WriteInput { process: u64, text: String },
    /// Let go of a process: no action names its handle any more.
    Release { process: u64 },
    /// Close the connection of a client.
    Close { client: u128 },
}

/// An action as a value. In which order a message goes out to several clients
/// is of no concern.
#[verifier::ext_equal]
pub enum ActionView {
    Send { to: Set<u128>, message: NetMessageS2CView },
    SaveConfig { file_name: Seq<char>, config: ServiceConfigView },
    DeleteConfig { file_name: Seq<char> },
    Signal { process: u64, signal: i32 },
    Kill { process: u64 },
    WriteInput { process: u64, text: Seq<char> },
    Release { process: u64 },
    Close { client: u128 },
}

impl View for Action {
    type V = ActionView;

    open spec fn view(&self) -> ActionView {
        match *self {
            Action::Send { to, message } => ActionView::Send {
                to: to@.to_set(),
                message: message@,
            },
            Action::SaveConfig { file_name, config } => ActionView::SaveConfig {
                file_name: file_name@,
                config: config@,
            },
            Action::DeleteConfig { file_name } => ActionView::DeleteConfig {
                file_name: file_name@,
            },
            Action::Signal { process, signal } => ActionView::Signal { process, signal },
            Action::Kill { process } => ActionView::Kill { process },
            Action::WriteInput { process, text } => ActionView::WriteInput { process, text: text@ },
            Action::Release { process } => ActionView::Release { process },
            Action::Close { client } => ActionView::Close { client },
        }
    }
}

impl Action {
    /// No client is listed twice.
    pub open spec fn wf(self) -> bool {
        match self {
            Action::Send { to, .. } => to@.no_duplicates(),
            _ => true,
        }
    }
}

/// The views of a list of actions.
pub open spec fn action_views(actions: Seq<Action>) -> Seq<ActionView> {
    actions.map_values(|action: Action| action@)
}

/// No message goes to a client twice.
pub open spec fn actions_wf(actions: Seq<Action>) -> bool {
    forall|i: int| 0 <= i < actions.len() ==> (#[trigger] actions[i]).wf()
}

/// The state of the server: the connected clients, each with the service whose
/// log it watches, and the services.
#[verifier::ext_equal]
pub struct ServerView {
    pub clients: Map<u128, Option<u128>>,
    pub services: Map<u128, ServiceView>,
}

impl ServerView {
    /// What holds of the server at all times.
    pub open spec fn wf(self) -> bool {
        forall|id: u128| #[trigger]
            self.services.contains_key(id) ==> self.services[id].wf() && self.services[id].id == id
    }

    /// The clients that watch the log of a service.
    pub open spec fn observers(self, id: u128) -> Set<u128> {
        self.clients.dom().filter(|client: u128| self.clients[client] == Some(id))
    }

    /// The services that are to be started without being asked.
    pub open spec fn auto_starting(self) -> Set<u128> {
        self.services.dom().filter(
            |id: u128|
                self.services[id].config.auto_start && startable(self.services[id].status),
        )
    }

    pub open spec fn with_service(self, id: u128, service: ServiceView) -> ServerView {
        ServerView { services: self.services.insert(id, service), ..self }
    }

    pub open spec fn without_service(self, id: u128) -> ServerView {
        ServerView { services: self.services.remove(id), ..self }
    }

    pub open spec fn with_client(self, client: u128, observing: Option<u128>) -> ServerView {
        ServerView { clients: self.clients.insert(client, observing), ..self }
    }

    pub open spec fn without_client(self, client: u128) -> ServerView {
        ServerView { clients: self.clients.remove(client), ..self }
    }

    /// There is such a service, in this state.
    pub open spec fn has_status(self, id: u128, status: ServiceStatus) -> bool {
        self.services.contains_key(id) && self.services[id].status == status
    }

    /// The service whose input a text from this client goes to, if there is
    /// one and it has a process.
    pub open spec fn input_target(self, client: u128) -> Option<u128> {
        if !self.clients.contains_key(client) {
            None
        } else {
            match self.clients[client] {
                Some(id) => if self.services.contains_key(id)
                    && self.services[id].process is Some {
                    Some(id)
                } else {
                    None
                },
                None => None,
            }
        }
    }

    /// Tells every client.
    pub open spec fn broadcast(self, message: NetMessageS2CView) -> ActionView {
        ActionView::Send { to: self.clients.dom(), message }
    }

    /// Tells every client the state of a service.
    pub open spec fn broadcast_status(self, id: u128, status: ServiceStatus) -> ActionView {
        self.broadcast(NetMessageS2CView::UpdateServiceStatus { id, status })
    }

    /// Tells the clients that watch the log of a service.
    pub open spec fn tell_observers(self, id: u128, message: NetMessageS2CView) -> ActionView {
        ActionView::Send { to: self.observers(id), message }
    }
}

/// Tells one client.
pub open spec fn tell(client: u128, message: NetMessageS2CView) -> ActionView {
    ActionView::Send { to: set![client], message }
}

/// Lets go of a process, if there is one.
pub open spec fn release(process: Option<u64>) -> Seq<ActionView> {
    match process {
        Some(process) => seq![ActionView::Release { process }],
        None => seq![],
    }
}

/// A whole log, sent to one client line by line.
pub open spec fn replay(client: u128, logs: Seq<LogEntryView>) -> Seq<ActionView> {
    logs.map_values(|log: LogEntryView| tell(client, NetMessageS2CView::AddLog(log)))
}

/// A text sent to the input of a service, as a line of its log.
pub open spec fn input_log(text: Seq<char>, now: SystemTime) -> LogEntryView {
    LogEntryView { text, kind: LogKind::In, time: now }
}

/// Every member of the set, each once.
pub open spec fn enumerates(order: Seq<u128>, ids: Set<u128>) -> bool {
    order.no_duplicates() && order.to_set() == ids
}

/// What a client learns when it connects: the configuration and the state of
/// each service, in this order of the services.
pub open spec fn welcome(state: ServerView, client: u128, order: Seq<u128>) -> Seq<ActionView>
    decreases order.len(),
{
    if order.len() == 0 {
        seq![]
    } else {
        let id = order.last();
        let service = state.services[id];
        welcome(state, client, order.drop_last()).push(
            tell(
                client,
                NetMessageS2CView::UpdateServiceConfig { id, config: service.config },
            ),
        ).push(
            tell(
                client,
                NetMessageS2CView::UpdateServiceStatus { id, status: service.status },
            ),
        )
    }
}

/// A file of a configuration: its name and what it holds.
pub type FileView = (Seq<char>, ServiceConfigView);

/// The views of a list of files.
pub open spec fn file_views(files: Seq<(String, ServiceConfig)>) -> Seq<FileView> {
    files.map_values(|file: (String, ServiceConfig)| (file.0@, file.1@))
}

/// The state after these files were read: a file whose name is the identifier
/// of a service adds the service, never started, in place of one that has this
/// identifier.
pub open spec fn loaded(state: ServerView, files: Seq<FileView>) -> ServerView
    decreases files.len(),
{
    if files.len() == 0 {
        state
    } else {
        let before = loaded(state, files.drop_last());
        match parsed_uuid(files.last().0) {
            Some(id) => before.with_service(id, ServiceView::fresh(id, files.last().1)),
            None => before,
        }
    }
}

/// The file of a service of a server.
pub open spec fn is_file_of(state: ServerView, id: u128, file: FileView) -> bool {
    state.services.contains_key(id) && file == (hyphenated(id), state.services[id].config)
}

/// The file of one of the services of a server.
pub open spec fn is_own_file(state: ServerView, file: FileView) -> bool {
    exists|id: u128| is_file_of(state, id, file)
}

/// These are the files of the services of a server.
pub open spec fn saves(state: ServerView, files: Seq<FileView>) -> bool {
    &&& forall|i: int| 0 <= i < files.len() ==> is_own_file(state, #[trigger] files[i])
    &&& forall|id: u128| #[trigger]
        state.services.contains_key(id) ==> files.contains(
            (hyphenated(id), state.services[id].config),
        )
}

/// The services of a server that was started anew: the same ones with the same
/// configurations, none of them started.
pub open spec fn restarted(state: ServerView, anew: ServerView) -> bool {
    anew.services =~= Map::new(
        |id: u128| state.services.contains_key(id),
        |id: u128| ServiceView::fresh(id, state.services[id].config),
    )
}

/// Whether a process has to be launched before this message is handled: a
/// service that can be started is to be started.
pub open spec fn launch_requested(state: ServerView, message: ServerMessage) -> bool {
    match message {
        ServerMessage::ClientMessage { message: NetMessageC2S::StartService(id), .. } => {
            state.services.contains_key(id) && startable(state.services[id].status)
        },
        _ => false,
    }
}

/// The state after a client's request. `launched` is what launching a process
/// gave, where a launch was requested.
pub open spec fn next_by_client(
    state: ServerView,
    client: u128,
    message: NetMessageC2S,
    launched: Option<Result<u64, String>>,
    now: SystemTime,
) -> ServerView {
    match message {
        NetMessageC2S::StartService(id) => if state.services.contains_key(id) {
            state.with_service(id, state.services[id].started(launched, now))
        } else {
            state
        },
        NetMessageC2S::StopService(id) => if state.has_status(id, ServiceStatus::Running) {
            state.with_service(
                id,
                state.services[id].told_to_stop().with_status(ServiceStatus::Stopping),
            )
        } else {
            state
        },
        NetMessageC2S::KillService(id) => if state.has_status(id, ServiceStatus::Running)
            || state.has_status(id, ServiceStatus::Stopping) {
            state.with_service(id, state.services[id].told_to_stop())
        } else {
            state
        },
        NetMessageC2S::PauseService(id) => if state.has_status(id, ServiceStatus::Running) {
            state.with_service(id, state.services[id].with_status(ServiceStatus::Paused))
        } else {
            state
        },
        NetMessageC2S::UnpauseService(id) => if state.has_status(id, ServiceStatus::Paused) {
            state.with_service(id, state.services[id].with_status(ServiceStatus::Running))
        } else {
            state
        },
        NetMessageC2S::MonitorLog(id) => if state.services.contains_key(id)
            && state.clients.contains_key(client) {
            state.with_client(client, Some(id))
        } else {
            state
        },
        NetMessageC2S::CancelMonitorLog => if state.clients.contains_key(client) {
            state.with_client(client, None)
        } else {
            state
        },
        NetMessageC2S::UpdateServiceConfig { id, config } => if state.services.contains_key(id) {
            state.with_service(id, state.services[id].with_config(config@))
        } else {
            state.with_service(id, ServiceView::fresh(id, config@))
        },
        NetMessageC2S::RemoveService(id) => if state.services.contains_key(id) && startable(
            state.services[id].status,
        ) {
            state.without_service(id)
        } else {
            state
        },
        NetMessageC2S::SendIn(text) => match state.input_target(client) {
            Some(id) => state.with_service(
                id,
                state.services[id].logged(input_log(text@, now)),
            ),
            None => state,
        },
    }
}

/// The state after a message.
pub open spec fn next(
    state: ServerView,
    message: ServerMessage,
    launched: Option<Result<u64, String>>,
    now: SystemTime,
) -> ServerView {
    match message {
        ServerMessage::Process { id, message } => if state.services.contains_key(id) {
            match message {
                ProcessMessage::Log(log) => state.with_service(id, state.services[id].logged(log@)),
                ProcessMessage::Exit => state.with_service(id, state.services[id].exited()),
            }
        } else {
            state
        },
        ServerMessage::ClientConnect(client) => state.with_client(client, None),
        ServerMessage::ClientMessage { client, message } => next_by_client(
            state,
            client,
            message,
            launched,
            now,
        ),
        ServerMessage::ClientDisconnect(client) => state.without_client(client),
    }
}

/// The actions after a client's request.
pub open spec fn actions_by_client(
    state: ServerView,
    client: u128,
    message: NetMessageC2S,
    launched: Option<Result<u64, String>>,
    now: SystemTime,
) -> Seq<ActionView> {
    match message {
        NetMessageC2S::StartService(id) => if state.services.contains_key(id) {
            let replaced = if launched matches Some(Ok(_)) {
                state.services[id].process
            } else {
                None
            };
            release(replaced) + seq![
                state.broadcast_status(id, state.services[id].started(launched, now).status),
                state.tell_observers(id, NetMessageS2CView::ClearLogs),
            ]
        } else {
            seq![]
        },
        NetMessageC2S::StopService(id) => if state.has_status(id, ServiceStatus::Running) {
            seq![
                ActionView::Signal { process: state.services[id].process->0, signal: SIGTERM },
                state.broadcast_status(id, ServiceStatus::Stopping),
            ]
        } else {
            seq![]
        },
        NetMessageC2S::KillService(id) => if state.has_status(id, ServiceStatus::Running)
            || state.has_status(id, ServiceStatus::Stopping) {
            seq![ActionView::Kill { process: state.services[id].process->0 }]
        } else {
            seq![]
        },
        NetMessageC2S::PauseService(id) => if state.has_status(id, ServiceStatus::Running) {
            seq![
                ActionView::Signal { process: state.services[id].process->0, signal: SIGSTOP },
                state.broadcast_status(id, ServiceStatus::Paused),
            ]
        } else {
            seq![]
        },
        NetMessageC2S::UnpauseService(id) => if state.has_status(id, ServiceStatus::Paused) {
            seq![
                ActionView::Signal { process: state.services[id].process->0, signal: SIGCONT },
                state.broadcast_status(id, ServiceStatus::Running),
            ]
        } else {
            seq![]
        },
        NetMessageC2S::MonitorLog(id) => if state.services.contains_key(id)
            && state.clients.contains_key(client) {
            seq![tell(client, NetMessageS2CView::ClearLogs)] + replay(
                client,
                state.services[id].logs,
            )
        } else {
            seq![]
        },
        NetMessageC2S::CancelMonitorLog => seq![],
        NetMessageC2S::UpdateServiceConfig { id, config } => seq![
            ActionView::SaveConfig { file_name: hyphenated(id), config: config@ },
            state.broadcast(NetMessageS2CView::UpdateServiceConfig { id, config: config@ }),
        ],
        NetMessageC2S::RemoveService(id) => if state.services.contains_key(id) && startable(
            state.services[id].status,
        ) {
            seq![ActionView::DeleteConfig { file_name: hyphenated(id) }] + release(
                state.services[id].process,
            ) + seq![state.broadcast(NetMessageS2CView::RemoveService(id))]
        } else {
            seq![]
        },
        NetMessageC2S::SendIn(text) => match state.input_target(client) {
            Some(id) => seq![
                state.tell_observers(id, NetMessageS2CView::AddLog(input_log(text@, now))),
                ActionView::WriteInput { process: state.services[id].process->0, text: text@ },
            ],
            None => seq![],
        },
    }
}

/// Whether these are the actions after a message. Only the order in which a new
/// client learns of the services is left open.
pub open spec fn reacts(
    state: ServerView,
    message: ServerMessage,
    launched: Option<Result<u64, String>>,
    now: SystemTime,
    actions: Seq<ActionView>,
) -> bool {
    match message {
        ServerMessage::Process { id, message } => actions == if state.services.contains_key(id) {
            match message {
                ProcessMessage::Log(log) => seq![
                    state.tell_observers(id, NetMessageS2CView::AddLog(log@)),
                ],
                ProcessMessage::Exit => release(state.services[id].process).push(
                    state.broadcast_status(id, state.services[id].exited().status),
                ),
            }
        } else {
            seq![]
        },
        ServerMessage::ClientConnect(client) => exists|order: Seq<u128>|
            enumerates(order, state.services.dom()) && actions == #[trigger] welcome(
                state,
                client,
                order,
            ),
        ServerMessage::ClientMessage { client, message } => actions == actions_by_client(
            state,
            client,
            message,
            launched,
            now,
        ),
        ServerMessage::ClientDisconnect(client) => actions == if state.clients.contains_key(
            client,
        ) {
            seq![ActionView::Close { client }]
        } else {
            seq![]
        },
    }
}

} // verus!
