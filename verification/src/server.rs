//! The server: the services it manages and the clients that are connected to
//! it. It handles one message at a time and says what is to be done.

use crate::common::{
    LogEntry, LogKind, NetMessageC2S, NetMessageS2C, NetMessageS2CView, ServiceConfig,
    ServiceStatus,
};
use crate::copies::{lemma_restart, names_read_back};
use crate::ids::{hyphenated, parsed_uuid, service_file_name, service_of_file};
use crate::model::{
    action_views, actions_by_client, actions_wf, enumerates, file_views, input_log,
    launch_requested, loaded, next, next_by_client, reacts, release, replay, restarted, saves,
    tell, welcome, Action, ActionView, FileView, ProcessMessage, ServerMessage, ServerView,
};
use crate::service::{
    can_start, has_process, startable, Service, ServiceView, SIGCONT, SIGSTOP, SIGTERM,
};
use std::collections::HashMap;
use std::time::SystemTime;
use vstd::prelude::*;

verus! {

broadcast use vstd::std_specs::hash::group_hash_axioms;

/// The server. Each client is kept with the service whose log it watches.
#[derive(Debug)]
pub struct Server {
    pub clients: HashMap<u128, Option<u128>>,
    pub services: HashMap<u128, Service>,
}

impl View for Server {
    type V = ServerView;

    open spec fn view(&self) -> ServerView {
        ServerView {
            clients: self.clients@,
            services: self.services@.map_values(|service: Service| service@),
        }
    }
}

impl Server {
    /// A server without services and clients.
    pub fn new() -> (server: Server)
        ensures
            server@ == (ServerView { clients: Map::empty(), services: Map::empty() }),
            server@.wf(),
    {
        let server = Server { clients: HashMap::new(), services: HashMap::new() };
        assert(server@.services =~= Map::<u128, ServiceView>::empty());
        server
    }

    /// Puts a service in its place.
    fn put_service(&mut self, id: u128, service: Service)
        ensures
            final(self)@ == old(self)@.with_service(id, service@),
    {
        self.services.insert(id, service);
        assert(self@.services =~= old(self)@.services.insert(id, service@));
    }

    /// Takes a service out.
    fn take_service(&mut self, id: u128) -> (service: Option<Service>)
        ensures
            final(self)@ == old(self)@.without_service(id),
            service is Some == old(self)@.services.contains_key(id),
            service matches Some(service) ==> service@ == old(self)@.services[id],
    {
        let service = self.services.remove(&id);
        assert(self@.services =~= old(self)@.services.remove(id));
        service
    }

    /// Tells every client.
    fn broadcast(&self, message: NetMessageS2C) -> (action: Action)
        ensures
            action@ == self@.broadcast(message@),
            action.wf(),
    {
        Action::Send { to: keys_of(&self.clients), message }
    }

    /// Tells every client the state of a service.
    fn broadcast_status(&self, id: u128, status: ServiceStatus) -> (action: Action)
        ensures
            action@ == self@.broadcast_status(id, status),
            action.wf(),
    {
        self.broadcast(NetMessageS2C::UpdateServiceStatus { id, status })
    }

    /// The clients that watch the log of a service.
    fn observers(&self, id: u128) -> (observers: Vec<u128>)
        ensures
            enumerates(observers@, self@.observers(id)),
    {
        let clients = keys_of(&self.clients);
        let mut observers: Vec<u128> = Vec::new();
        for i in 0..clients.len()
            invariant
                enumerates(clients@, self@.clients.dom()),
                observers@.no_duplicates(),
                forall|client: u128| #[trigger]
                    observers@.contains(client) <==> clients@.take(i as int).contains(client)
                        && self@.observers(id).contains(client),
        {
            let client = clients[i];
            assert(clients@.to_set().contains(client));
            assert(clients@.take(i + 1) =~= clients@.take(i as int).push(client));
            assert(!clients@.take(i as int).contains(client));
            let ghost before = observers@;
            assert(!before.contains(client));
            let watches = match self.clients.get(&client) {
                Some(observing) => *observing == Some(id),
                None => false,
            };
            if watches {
                observers.push(client);
            }
            assert forall|other: u128| #[trigger] observers@.contains(other) <==> clients@.take(
                i + 1,
            ).contains(other) && self@.observers(id).contains(other) by {
                vstd::seq_lib::lemma_seq_contains_after_push(clients@.take(i as int), client, other);
                vstd::seq_lib::lemma_seq_contains_after_push(before, client, other);
            }
        }
        assert(clients@.take(clients@.len() as int) =~= clients@);
        assert forall|client: u128| observers@.to_set().contains(client) == self@.observers(
            id,
        ).contains(client) by {
            assert(clients@.to_set().contains(client) == clients@.contains(client));
            assert(observers@.to_set().contains(client) == observers@.contains(client));
        }
        assert(observers@.to_set() =~= self@.observers(id));
        observers
    }

    /// Tells the clients that watch the log of a service.
    fn tell_observers(&self, id: u128, message: NetMessageS2C) -> (action: Action)
        ensures
            action@ == self@.tell_observers(id, message@),
            action.wf(),
    {
        Action::Send { to: self.observers(id), message }
    }

    /// Adds the service that a file was found to belong to, if it belongs to
    /// one. The service was never started, and takes the place of one with the
    /// same identifier.
    pub fn restore(&mut self, found: Option<u128>, config: ServiceConfig)
        requires
            old(self)@.wf(),
        ensures
            final(self)@ == (match found {
                Some(id) => old(self)@.with_service(id, ServiceView::fresh(id, config@)),
                None => old(self)@,
            }),
            final(self)@.wf(),
    {
        if let Some(id) = found {
            self.put_service(id, Service::from_config(id, config));
        }
    }

    /// Reads the files of configurations, before any service is started. A file whose name is not the
    /// identifier of a service is left aside. What a server wrote is read back:
    /// from the files of another server, one that has no services yet gets its
    /// services and their configurations.
    pub fn load(&mut self, files: Vec<(String, ServiceConfig)>)
        requires
            old(self)@.wf(),
        ensures
            final(self)@ == loaded(old(self)@, file_views(files@)),
            final(self)@.wf(),
            forall|saved: ServerView|
                old(self)@.services.dom() =~= Set::<u128>::empty() && #[trigger] saves(
                    saved,
                    file_views(files@),
                ) ==> restarted(saved, final(self)@),
    {
        let ghost all = file_views(files@);
        assert(all.take(0) =~= Seq::<FileView>::empty());
        for file in it: files
            invariant
                it.seq() == files@,
                all == file_views(files@),
                self@ == loaded(old(self)@, all.take(it.index())),
                self@.wf(),
                names_read_back(all.take(it.index())),
        {
            let (name, config) = file;
            let ghost part = all.take(it.index() + 1);
            assert(part.drop_last() =~= all.take(it.index()));
            assert(part.last() == (name@, config@));
            let found = service_of_file(name.as_str());
            assert forall|i: int, id: u128|
                0 <= i < part.len() && (#[trigger] part[i]).0 == #[trigger] hyphenated(
                    id,
                ) implies parsed_uuid(part[i].0) == Some(id) by {
                if i < it.index() {
                    assert(all.take(it.index())[i] == part[i]);
                }
            }
            self.restore(found, config);
        }
        assert(all.take(all.len() as int) =~= all);
        assert forall|saved: ServerView|
            old(self)@.services.dom() =~= Set::<u128>::empty() && #[trigger] saves(
                saved,
                all,
            ) implies restarted(saved, self@) by {
            lemma_restart(saved, old(self)@, all);
        }
    }

    /// The processes to launch when the server begins its work: the services
    /// that start on their own, each once, with their configurations.
    pub fn auto_start_requests(&self) -> (requests: Vec<(u128, ServiceConfig)>)
        ensures
            enumerates(
                requests@.map_values(|request: (u128, ServiceConfig)| request.0),
                self@.auto_starting(),
            ),
            forall|i: int|
                0 <= i < requests@.len() ==> (#[trigger] requests@[i]).1@
                    == self@.services[requests@[i].0].config,
    {
        let ids = keys_of(&self.services);
        assert(self@.services.dom() =~= self.services@.dom());
        let mut requests: Vec<(u128, ServiceConfig)> = Vec::new();
        let ghost mut asked: Seq<u128> = Seq::empty();
        for i in 0..ids.len()
            invariant
                enumerates(ids@, self@.services.dom()),
                self@.services.dom() =~= self.services@.dom(),
                asked == requests@.map_values(|request: (u128, ServiceConfig)| request.0),
                asked.no_duplicates(),
                forall|id: u128| #[trigger]
                    asked.contains(id) <==> ids@.take(i as int).contains(id)
                        && self@.auto_starting().contains(id),
                forall|j: int|
                    0 <= j < requests@.len() ==> (#[trigger] requests@[j]).1@
                        == self@.services[requests@[j].0].config,
        {
            let id = ids[i];
            assert(ids@.to_set().contains(id));
            assert(ids@.take(i + 1) =~= ids@.take(i as int).push(id));
            assert(!ids@.take(i as int).contains(id));
            let ghost before = asked;
            assert(!before.contains(id));
            if let Some(service) = self.services.get(&id) {
                if service.config.auto_start && can_start(service.status) {
                    requests.push((id, service.config.clone()));
                    proof {
                        asked = before.push(id);
                    }
                    assert(asked =~= requests@.map_values(
                        |request: (u128, ServiceConfig)| request.0,
                    ));
                }
            }
            assert forall|other: u128| #[trigger] asked.contains(other) <==> ids@.take(
                i + 1,
            ).contains(other) && self@.auto_starting().contains(other) by {
                vstd::seq_lib::lemma_seq_contains_after_push(ids@.take(i as int), id, other);
                vstd::seq_lib::lemma_seq_contains_after_push(before, id, other);
            }
        }
        assert(ids@.take(ids@.len() as int) =~= ids@);
        assert forall|id: u128|
            asked.to_set().contains(id) == self@.auto_starting().contains(id) by {
            assert(ids@.to_set().contains(id) == ids@.contains(id));
            assert(asked.to_set().contains(id) == asked.contains(id));
        }
        assert(asked.to_set() =~= self@.auto_starting());
        requests
    }

    /// Records what launching the process of a service gave that starts on its
    /// own. The result is the handle of a process that the new one replaces.
    pub fn auto_started(
        &mut self,
        id: u128,
        launched: Result<u64, String>,
        now: SystemTime,
    ) -> (replaced: Option<u64>)
        requires
            old(self)@.wf(),
            old(self)@.auto_starting().contains(id),
        ensures
            final(self)@ == old(self)@.with_service(
                id,
                old(self)@.services[id].started(Some(launched), now),
            ),
            final(self)@.wf(),
            replaced == (if launched is Ok {
                old(self)@.services[id].process
            } else {
                None
            }),
    {
        match self.take_service(id) {
            None => None,
            Some(mut service) => {
                let replaced: Option<u64> = service.try_start(Some(launched), now);
                self.put_service(id, service);
                assert(self@ =~~= old(self)@.with_service(id, service@));
                replaced
            },
        }
    }

    /// The process to launch before this message is handled, if there is one:
    /// its service and the configuration of the service.
    pub fn launch_request(&self, message: &ServerMessage) -> (request: Option<
        (u128, ServiceConfig),
    >)
        ensures
            request is Some == launch_requested(self@, *message),
            request matches Some((id, config)) ==> {
                &&& self@.services.contains_key(id)
                &&& config@ == self@.services[id].config
                &&& message matches ServerMessage::ClientMessage {
                    message: NetMessageC2S::StartService(asked),
                    ..
                } && asked == id
            },
    {
        match message {
            ServerMessage::ClientMessage { message: NetMessageC2S::StartService(id), .. } => {
                match self.services.get(id) {
                    Some(service) => if can_start(service.status) {
                        Some((*id, service.config.clone()))
                    } else {
                        None
                    },
                    None => None,
                }
            },
            _ => None,
        }
    }

    /// Handles a message. `launched` is what launching a process gave, where
    /// `launch_request` asked for it: its handle, or the reason why there is
    /// none. The actions are to be carried out in their order.
    pub fn handle(
        &mut self,
        message: ServerMessage,
        launched: Option<Result<u64, String>>,
        now: SystemTime,
    ) -> (actions: Vec<Action>)
        requires
            old(self)@.wf(),
            launched is Some == launch_requested(old(self)@, message),
        ensures
            final(self)@ == next(old(self)@, message, launched, now),
            final(self)@.wf(),
            reacts(old(self)@, message, launched, now, action_views(actions@)),
            actions_wf(actions@),
    {
        match message {
            ServerMessage::Process { id, message: ProcessMessage::Log(log) } => self.process_log(
                id,
                log,
            ),
            ServerMessage::Process { id, message: ProcessMessage::Exit } => self.process_exit(id),
            ServerMessage::ClientConnect(client) => self.client_connect(client),
            ServerMessage::ClientMessage { client, message } => self.client_message(
                client,
                message,
                launched,
                now,
            ),
            ServerMessage::ClientDisconnect(client) => self.client_disconnect(client),
        }
    }

    /// A client is gone.
    fn client_disconnect(&mut self, client: u128) -> (actions: Vec<Action>)
        requires
            old(self)@.wf(),
        ensures
            final(self)@ == old(self)@.without_client(client),
            final(self)@.wf(),
            action_views(actions@) == (if old(self)@.clients.contains_key(client) {
                seq![ActionView::Close { client }]
            } else {
                seq![]
            }),
            actions_wf(actions@),
    {
        let mut actions: Vec<Action> = nothing();
        if self.clients.remove(&client).is_some() {
            actions.push(Action::Close { client });
        }
        actions
    }

    /// Handles a request of a client.
    fn client_message(
        &mut self,
        client: u128,
        message: NetMessageC2S,
        launched: Option<Result<u64, String>>,
        now: SystemTime,
    ) -> (actions: Vec<Action>)
        requires
            old(self)@.wf(),
            launched is Some == launch_requested(
                old(self)@,
                ServerMessage::ClientMessage { client, message },
            ),
        ensures
            final(self)@ == next_by_client(old(self)@, client, message, launched, now),
            final(self)@.wf(),
            action_views(actions@) == actions_by_client(
                old(self)@,
                client,
                message,
                launched,
                now,
            ),
            actions_wf(actions@),
    {
        match message {
            NetMessageC2S::StartService(id) => self.start_service(id, launched, now),
            NetMessageC2S::StopService(id) => self.signal_service(
                id,
                ServiceStatus::Running,
                SIGTERM,
                ServiceStatus::Stopping,
            ),
            NetMessageC2S::KillService(id) => self.kill_service(id),
            NetMessageC2S::PauseService(id) => self.signal_service(
                id,
                ServiceStatus::Running,
                SIGSTOP,
                ServiceStatus::Paused,
            ),
            NetMessageC2S::UnpauseService(id) => self.signal_service(
                id,
                ServiceStatus::Paused,
                SIGCONT,
                ServiceStatus::Running,
            ),
            NetMessageC2S::MonitorLog(id) => self.monitor_log(client, id),
            NetMessageC2S::CancelMonitorLog => {
                if self.clients.contains_key(&client) {
                    self.clients.insert(client, None);
                }
                nothing()
            },
            NetMessageC2S::UpdateServiceConfig { id, config } => self.update_config(id, config),
            NetMessageC2S::RemoveService(id) => self.remove_service(id),
            NetMessageC2S::SendIn(text) => self.send_in(client, text, now),
        }
    }

    /// A line that a service wrote.
    fn process_log(&mut self, id: u128, log: LogEntry) -> (actions: Vec<Action>)
        requires
            old(self)@.wf(),
        ensures
            final(self)@.wf(),
            actions_wf(actions@),
            old(self)@.services.contains_key(id) ==> {
                &&& final(self)@ == old(self)@.with_service(
                    id,
                    old(self)@.services[id].logged(log@),
                )
                &&& action_views(actions@) == seq![
                    old(self)@.tell_observers(id, NetMessageS2CView::AddLog(log@)),
                ]
            },
            !old(self)@.services.contains_key(id) ==> {
                &&& final(self)@ == old(self)@
                &&& action_views(actions@) == Seq::<ActionView>::empty()
            },
    {
        let mut actions = nothing();
        match self.take_service(id) {
            None => {
                assert(self@ =~~= old(self)@);
            },
            Some(mut service) => {
                ask(&mut actions, self.tell_observers(id, NetMessageS2C::AddLog(log.clone())));
                service.push_log(log);
                self.put_service(id, service);
                assert(self@ =~~= old(self)@.with_service(
                    id,
                    old(self)@.services[id].logged(log@),
                ));
            },
        }
        actions
    }

    /// The end of a service's process.
    fn process_exit(&mut self, id: u128) -> (actions: Vec<Action>)
        requires
            old(self)@.wf(),
        ensures
            final(self)@.wf(),
            actions_wf(actions@),
            old(self)@.services.contains_key(id) ==> {
                &&& final(self)@ == old(self)@.with_service(id, old(self)@.services[id].exited())
                &&& action_views(actions@) == release(old(self)@.services[id].process).push(
                    old(self)@.broadcast_status(id, old(self)@.services[id].exited().status),
                )
            },
            !old(self)@.services.contains_key(id) ==> {
                &&& final(self)@ == old(self)@
                &&& action_views(actions@) == Seq::<ActionView>::empty()
            },
    {
        let mut actions = nothing();
        match self.take_service(id) {
            None => {
                assert(self@ =~~= old(self)@);
            },
            Some(mut service) => {
                let ended: Option<u64> = service.exit();
                ask_release(&mut actions, ended);
                ask(&mut actions, self.broadcast_status(id, service.status));
                self.put_service(id, service);
                assert(self@ =~~= old(self)@.with_service(id, old(self)@.services[id].exited()));
                assert(action_views(actions@) =~= release(old(self)@.services[id].process).push(
                    old(self)@.broadcast_status(id, old(self)@.services[id].exited().status),
                ));
            },
        }
        actions
    }

    /// A new client learns the configuration and the state of every service.
    fn client_connect(&mut self, client: u128) -> (actions: Vec<Action>)
        requires
            old(self)@.wf(),
        ensures
            final(self)@ == old(self)@.with_client(client, None),
            final(self)@.wf(),
            exists|order: Seq<u128>|
                enumerates(order, old(self)@.services.dom()) && action_views(actions@)
                    == #[trigger] welcome(old(self)@, client, order),
            actions_wf(actions@),
    {
        let mut actions = nothing();
        let ids = keys_of(&self.services);
        assert(self@.services.dom() =~= self.services@.dom());
        for i in 0..ids.len()
            invariant
                enumerates(ids@, self@.services.dom()),
                self@.services.dom() =~= self.services@.dom(),
                action_views(actions@) == welcome(self@, client, ids@.take(i as int)),
                actions_wf(actions@),
        {
            let id = ids[i];
            assert(ids@.to_set().contains(id));
            assert(ids@.take(i + 1).drop_last() =~= ids@.take(i as int));
            match self.services.get(&id) {
                Some(service) => {
                    ask(
                        &mut actions,
                        tell_client(
                            client,
                            NetMessageS2C::UpdateServiceConfig {
                                id,
                                config: service.config.clone(),
                            },
                        ),
                    );
                    ask(
                        &mut actions,
                        tell_client(
                            client,
                            NetMessageS2C::UpdateServiceStatus { id, status: service.status },
                        ),
                    );
                },
                None => {
                    assert(false);
                },
            }
        }
        assert(ids@.take(ids@.len() as int) =~= ids@);
        self.clients.insert(client, None);
        assert(action_views(actions@) == welcome(old(self)@, client, ids@));
        actions
    }

    /// Starts a service.
    fn start_service(
        &mut self,
        id: u128,
        launched: Option<Result<u64, String>>,
        now: SystemTime,
    ) -> (actions: Vec<Action>)
        requires
            old(self)@.wf(),
            launched is Some == (old(self)@.services.contains_key(id) && startable(
                old(self)@.services[id].status,
            )),
        ensures
            old(self)@.services.contains_key(id) ==> {
                let service = old(self)@.services[id];
                let replaced = if launched matches Some(Ok(_)) {
                    service.process
                } else {
                    None
                };
                &&& final(self)@ == old(self)@.with_service(id, service.started(launched, now))
                &&& action_views(actions@) == release(replaced) + seq![
                    old(self)@.broadcast_status(id, service.started(launched, now).status),
                    old(self)@.tell_observers(id, NetMessageS2CView::ClearLogs),
                ]
            },
            !old(self)@.services.contains_key(id) ==> {
                &&& final(self)@ == old(self)@
                &&& action_views(actions@) == Seq::<ActionView>::empty()
            },
            final(self)@.wf(),
            actions_wf(actions@),
    {
        let mut actions = nothing();
        match self.take_service(id) {
            None => {
                assert(self@ =~~= old(self)@);
            },
            Some(mut service) => {
                let replaced: Option<u64> = service.try_start(launched, now);
                ask_release(&mut actions, replaced);
                ask(&mut actions, self.broadcast_status(id, service.status));
                ask(&mut actions, self.tell_observers(id, NetMessageS2C::ClearLogs));
                self.put_service(id, service);
                assert(self@ =~~= old(self)@.with_service(
                    id,
                    old(self)@.services[id].started(launched, now),
                ));
                assert(action_views(actions@) =~= release(replaced) + seq![
                    old(self)@.broadcast_status(id, service@.status),
                    old(self)@.tell_observers(id, NetMessageS2CView::ClearLogs),
                ]);
            },
        }
        actions
    }

    /// Sends a signal to the process of a service in one state and moves the
    /// service to another.
    fn signal_service(&mut self, id: u128, from: ServiceStatus, signal: i32, to: ServiceStatus) -> (actions:
        Vec<Action>)
        requires
            old(self)@.wf(),
            has_process(from),
            has_process(to),
        ensures
            final(self)@.wf(),
            actions_wf(actions@),
            old(self)@.has_status(id, from) ==> {
                let service = old(self)@.services[id];
                let told = if to == ServiceStatus::Stopping {
                    service.told_to_stop()
                } else {
                    service
                };
                &&& final(self)@ == old(self)@.with_service(id, told.with_status(to))
                &&& action_views(actions@) == seq![
                    ActionView::Signal { process: service.process->0, signal },
                    old(self)@.broadcast_status(id, to),
                ]
            },
            !old(self)@.has_status(id, from) ==> {
                &&& final(self)@ == old(self)@
                &&& action_views(actions@) == Seq::<ActionView>::empty()
            },
    {
        let mut actions = nothing();
        match self.take_service(id) {
            None => {
                assert(self@ =~~= old(self)@);
            },
            Some(mut service) => {
                let ghost before = service@;
                if service.status == from {
                    if let Some(process) = service.process {
                        ask(&mut actions, Action::Signal { process, signal });
                    }
                    service.status = to;
                    if to == ServiceStatus::Stopping {
                        service.stopping = true;
                    }
                    ask(&mut actions, self.broadcast_status(id, to));
                    assert(action_views(actions@) =~= seq![
                        ActionView::Signal { process: before.process->0, signal },
                        old(self)@.broadcast_status(id, to),
                    ]);
                }
                self.put_service(id, service);
                assert(self@ =~~= old(self)@.with_service(id, service@));
                assert(service@ == before ==> self@ =~~= old(self)@);
            },
        }
        actions
    }

    /// Kills the process of a service. The service learns of it when the
    /// process ends.
    fn kill_service(&mut self, id: u128) -> (actions: Vec<Action>)
        requires
            old(self)@.wf(),
        ensures
            final(self)@.wf(),
            actions_wf(actions@),
            old(self)@.services.contains_key(id) && !startable(old(self)@.services[id].status)
                ==> {
                &&& final(self)@ == old(self)@.with_service(
                    id,
                    old(self)@.services[id].told_to_stop(),
                )
                &&& action_views(actions@) == seq![
                    ActionView::Kill { process: old(self)@.services[id].process->0 },
                ]
            },
            !(old(self)@.services.contains_key(id) && !startable(old(self)@.services[id].status))
                ==> {
                &&& final(self)@ == old(self)@
                &&& action_views(actions@) == Seq::<ActionView>::empty()
            },
    {
        let mut actions = nothing();
        match self.take_service(id) {
            None => {
                assert(self@ =~~= old(self)@);
            },
            Some(mut service) => {
                let ghost before = service@;
                if !can_start(service.status) {
                    service.stopping = true;
                    if let Some(process) = service.process {
                        ask(&mut actions, Action::Kill { process });
                    }
                    assert(action_views(actions@) =~= seq![
                        ActionView::Kill { process: before.process->0 },
                    ]);
                }
                self.put_service(id, service);
                assert(self@ =~~= old(self)@.with_service(id, service@));
                assert(service@ == before ==> self@ =~~= old(self)@);
            },
        }
        actions
    }

    /// Lets a client watch the log of a service, from its first line on.
    fn monitor_log(&mut self, client: u128, id: u128) -> (actions: Vec<Action>)
        requires
            old(self)@.wf(),
        ensures
            final(self)@.wf(),
            actions_wf(actions@),
            old(self)@.services.contains_key(id) && old(self)@.clients.contains_key(client) ==> {
                &&& final(self)@ == old(self)@.with_client(client, Some(id))
                &&& action_views(actions@) == seq![tell(client, NetMessageS2CView::ClearLogs)]
                    + replay(client, old(self)@.services[id].logs)
            },
            !(old(self)@.services.contains_key(id) && old(self)@.clients.contains_key(client))
                ==> {
                &&& final(self)@ == old(self)@
                &&& action_views(actions@) == Seq::<ActionView>::empty()
            },
    {
        let mut actions = nothing();
        if !self.clients.contains_key(&client) {
            return actions;
        }
        match self.services.get(&id) {
            None => {},
            Some(service) => {
                ask(&mut actions, tell_client(client, NetMessageS2C::ClearLogs));
                let ghost logs = service@.logs;
                assert(action_views(actions@) =~= seq![
                    tell(client, NetMessageS2CView::ClearLogs),
                ] + replay(client, logs.take(0)));
                for i in 0..service.logs.len()
                    invariant
                        logs == service@.logs,
                        action_views(actions@) == seq![tell(client, NetMessageS2CView::ClearLogs)]
                            + replay(client, logs.take(i as int)),
                        actions_wf(actions@),
                {
                    ask(
                        &mut actions,
                        tell_client(client, NetMessageS2C::AddLog(service.logs[i].clone())),
                    );
                    assert(action_views(actions@) =~= seq![
                        tell(client, NetMessageS2CView::ClearLogs),
                    ] + replay(client, logs.take(i + 1)));
                }
                assert(logs.take(logs.len() as int) =~= logs);
                self.clients.insert(client, Some(id));
            },
        }
        actions
    }

    /// Gives a service another configuration. A service that does not exist is
    /// created.
    fn update_config(&mut self, id: u128, config: ServiceConfig) -> (actions: Vec<Action>)
        requires
            old(self)@.wf(),
        ensures
            final(self)@.wf(),
            actions_wf(actions@),
            final(self)@ == old(self)@.with_service(
                id,
                if old(self)@.services.contains_key(id) {
                    old(self)@.services[id].with_config(config@)
                } else {
                    ServiceView::fresh(id, config@)
                },
            ),
            action_views(actions@) == seq![
                ActionView::SaveConfig { file_name: hyphenated(id), config: config@ },
                old(self)@.broadcast(
                    NetMessageS2CView::UpdateServiceConfig { id, config: config@ },
                ),
            ],
    {
        let mut actions = nothing();
        ask(
            &mut actions,
            Action::SaveConfig { file_name: service_file_name(id), config: config.clone() },
        );
        ask(
            &mut actions,
            self.broadcast(NetMessageS2C::UpdateServiceConfig { id, config: config.clone() }),
        );
        assert(action_views(actions@) =~= seq![
            ActionView::SaveConfig { file_name: hyphenated(id), config: config@ },
            old(self)@.broadcast(NetMessageS2CView::UpdateServiceConfig { id, config: config@ }),
        ]);
        let service = match self.take_service(id) {
            Some(service) => Service { config, ..service },
            None => Service::from_config(id, config),
        };
        self.put_service(id, service);
        assert(self@ =~~= old(self)@.with_service(id, service@));
        actions
    }

    /// Removes a service that is neither running nor about to stop.
    fn remove_service(&mut self, id: u128) -> (actions: Vec<Action>)
        requires
            old(self)@.wf(),
        ensures
            final(self)@.wf(),
            actions_wf(actions@),
            old(self)@.services.contains_key(id) && startable(old(self)@.services[id].status) ==> {
                &&& final(self)@ == old(self)@.without_service(id)
                &&& action_views(actions@) == seq![
                    ActionView::DeleteConfig { file_name: hyphenated(id) },
                ] + release(old(self)@.services[id].process) + seq![
                    old(self)@.broadcast(NetMessageS2CView::RemoveService(id)),
                ]
            },
            !(old(self)@.services.contains_key(id) && startable(old(self)@.services[id].status))
                ==> {
                &&& final(self)@ == old(self)@
                &&& action_views(actions@) == Seq::<ActionView>::empty()
            },
    {
        let mut actions = nothing();
        match self.take_service(id) {
            None => {
                assert(self@ =~~= old(self)@);
            },
            Some(service) => {
                if can_start(service.status) {
                    ask(&mut actions, Action::DeleteConfig { file_name: service_file_name(id) });
                    ask_release(&mut actions, service.process);
                    ask(&mut actions, self.broadcast(NetMessageS2C::RemoveService(id)));
                    assert(action_views(actions@) =~= seq![
                        ActionView::DeleteConfig { file_name: hyphenated(id) },
                    ] + release(service.process) + seq![
                        old(self)@.broadcast(NetMessageS2CView::RemoveService(id)),
                    ]);
                } else {
                    self.put_service(id, service);
                    assert(self@ =~~= old(self)@);
                }
            },
        }
        actions
    }

    /// Sends a text to the input of the service whose log a client watches.
    fn send_in(&mut self, client: u128, text: String, now: SystemTime) -> (actions: Vec<Action>)
        requires
            old(self)@.wf(),
        ensures
            final(self)@.wf(),
            actions_wf(actions@),
            old(self)@.input_target(client) matches Some(id) ==> {
                &&& final(self)@ == old(self)@.with_service(
                    id,
                    old(self)@.services[id].logged(input_log(text@, now)),
                )
                &&& action_views(actions@) == seq![
                    old(self)@.tell_observers(
                        id,
                        NetMessageS2CView::AddLog(input_log(text@, now)),
                    ),
                    ActionView::WriteInput {
                        process: old(self)@.services[id].process->0,
                        text: text@,
                    },
                ]
            },
            old(self)@.input_target(client) is None ==> {
                &&& final(self)@ == old(self)@
                &&& action_views(actions@) == Seq::<ActionView>::empty()
            },
    {
        let mut actions = nothing();
        let id = match self.clients.get(&client) {
            Some(Some(id)) => *id,
            _ => {
                return actions;
            },
        };
        match self.take_service(id) {
            None => {
                assert(self@ =~~= old(self)@);
            },
            Some(mut service) => {
                let ghost before = service@;
                if let Some(process) = service.process {
                    let log = LogEntry { text: text.clone(), kind: LogKind::In, time: now };
                    ask(&mut actions, self.tell_observers(id, NetMessageS2C::AddLog(log.clone())));
                    service.push_log(log);
                    ask(&mut actions, Action::WriteInput { process, text });
                    assert(action_views(actions@) =~= seq![
                        old(self)@.tell_observers(
                            id,
                            NetMessageS2CView::AddLog(input_log(text@, now)),
                        ),
                        ActionView::WriteInput { process, text: text@ },
                    ]);
                }
                self.put_service(id, service);
                assert(self@ =~~= old(self)@.with_service(id, service@));
                assert(service@ == before ==> self@ =~~= old(self)@);
            },
        }
        actions
    }
}

/// The keys of a map, each once.
fn keys_of<V>(map: &HashMap<u128, V>) -> (keys: Vec<u128>)
    ensures
        enumerates(keys@, map@.dom()),
{
    let mut keys: Vec<u128> = Vec::new();
    for key in it: map.keys()
        invariant
            keys@ == it.seq().unref().take(it.index()),
            it.seq().unref().to_set() == map@.dom(),
            it.seq().no_duplicates(),
        ensures
            keys@ == it.seq().unref(),
    {
        keys.push(*key);
        assert(keys@ =~= it.seq().unref().take(it.index() + 1));
    }
    keys
}

/// Tells one client.
fn tell_client(client: u128, message: NetMessageS2C) -> (action: Action)
    ensures
        action@ == tell(client, message@),
        action.wf(),
{
    let mut to: Vec<u128> = Vec::new();
    to.push(client);
    assert(to@[0] == client);
    assert(to@.to_set() =~= set![client]);
    Action::Send { to, message }
}

/// Appends an action.
fn ask(actions: &mut Vec<Action>, action: Action)
    requires
        actions_wf(old(actions)@),
        action.wf(),
    ensures
        action_views(final(actions)@) == action_views(old(actions)@).push(action@),
        actions_wf(final(actions)@),
{
    actions.push(action);
    assert(action_views(actions@) =~= action_views(old(actions)@).push(action@));
}

/// Appends the release of a process, if there is one.
fn ask_release(actions: &mut Vec<Action>, process: Option<u64>)
    requires
        actions_wf(old(actions)@),
    ensures
        action_views(final(actions)@) == action_views(old(actions)@) + release(process),
        actions_wf(final(actions)@),
{
    match process {
        Some(process) => ask(actions, Action::Release { process }),
        None => {},
    }
    assert(action_views(actions@) =~= action_views(old(actions)@) + release(process));
}

/// No actions yet.
fn nothing() -> (actions: Vec<Action>)
    ensures
        action_views(actions@) == Seq::<ActionView>::empty(),
        actions_wf(actions@),
{
    let actions: Vec<Action> = Vec::new();
    assert(action_views(actions@) =~= Seq::<ActionView>::empty());
    actions
}

} // verus!
