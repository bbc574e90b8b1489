//! What the server does, message by message: what becomes of each field of a
//! service, who is told what, and what is asked for. The laws speak of calls of
//! the server's functions and of the values that these take and give.

use crate::common::{
    LogEntry, LogEntryView, LogKind, NetMessageC2S, NetMessageS2C, NetMessageS2CView,
    ServiceConfig, ServiceStatus,
};
use crate::ids::{hyphenated, parsed_uuid};
use crate::model::{
    action_views, enumerates, file_views, is_file_of, is_own_file, loaded, saves, welcome, Action,
    ActionView, FileView, ProcessMessage, ServerMessage, ServerView,
};
use crate::server::Server;
use crate::service::{Service, ServiceView};
use std::time::SystemTime;
use vstd::prelude::*;

verus! {

broadcast use vstd::std_specs::hash::group_hash_axioms;

/// Two lines of a log with the same text, kind and time.
pub open spec fn same_line(a: LogEntry, b: LogEntry) -> bool {
    a.text@ == b.text@ && a.kind == b.kind && a.time == b.time
}

/// Two logs with the same lines.
pub open spec fn same_log(a: Seq<LogEntry>, b: Seq<LogEntry>) -> bool {
    a.len() == b.len() && forall|i: int| 0 <= i < a.len() ==> same_line(#[trigger] a[i], b[i])
}

/// The second log is the first one with one more line at its end.
pub open spec fn one_line_more(
    before: Seq<LogEntry>,
    after: Seq<LogEntry>,
    text: Seq<char>,
    kind: LogKind,
    time: SystemTime,
) -> bool {
    &&& after.len() == before.len() + 1
    &&& forall|i: int| 0 <= i < before.len() ==> same_line(before[i], #[trigger] after[i])
    &&& after.last().text@ == text
    &&& after.last().kind == kind
    &&& after.last().time == time
}

/// Two configurations that agree in every field.
pub open spec fn same_config(a: ServiceConfig, b: ServiceConfig) -> bool {
    &&& a.name@ == b.name@
    &&& a.executable@ == b.executable@
    &&& a.working_directory@ == b.working_directory@
    &&& a.arguments@.len() == b.arguments@.len()
    &&& forall|i: int|
        0 <= i < a.arguments@.len() ==> (#[trigger] a.arguments@[i])@ == b.arguments@[i]@
    &&& a.environment@ == b.environment@
    &&& a.auto_start == b.auto_start
    &&& a.show_timestamp == b.show_timestamp
}

/// Two services that agree in every field.
pub open spec fn same_service(a: Service, b: Service) -> bool {
    &&& a.id == b.id
    &&& a.process == b.process
    &&& a.status == b.status
    &&& a.stopping == b.stopping
    &&& same_log(a.logs@, b.logs@)
    &&& same_config(a.config, b.config)
}

/// The services other than this one are the same before and after.
pub open spec fn others_same(before: Server, after: Server, id: u128) -> bool {
    forall|other: u128| #![trigger after.services@.contains_key(other)]
        #![trigger before.services@.contains_key(other)]
        other != id ==> {
            &&& after.services@.contains_key(other) == before.services@.contains_key(other)
            &&& after.services@.contains_key(other) ==> same_service(
                before.services@[other],
                after.services@[other],
            )
        }
}

/// All services are the same before and after.
pub open spec fn services_same(before: Server, after: Server) -> bool {
    forall|id: u128| #![trigger after.services@.contains_key(id)]
        #![trigger before.services@.contains_key(id)]
        {
            &&& after.services@.contains_key(id) == before.services@.contains_key(id)
            &&& after.services@.contains_key(id) ==> same_service(
                before.services@[id],
                after.services@[id],
            )
        }
}

/// The service is there before and after, and nothing else changed.
pub open spec fn only_this_changes(before: Server, after: Server, id: u128) -> bool {
    &&& before.services@.contains_key(id)
    &&& after.services@.contains_key(id)
    &&& others_same(before, after, id)
    &&& after.clients@ == before.clients@
}

/// These are the connected clients, each once.
pub open spec fn all_clients(to: Seq<u128>, server: Server) -> bool {
    &&& to.no_duplicates()
    &&& forall|client: u128| #[trigger]
        to.contains(client) <==> server.clients@.contains_key(client)
}

/// These are the clients that watch the log of the service, each once.
pub open spec fn all_watchers(to: Seq<u128>, server: Server, id: u128) -> bool {
    &&& to.no_duplicates()
    &&& forall|client: u128| #[trigger]
        to.contains(client) <==> server.clients@.contains_key(client)
            && server.clients@[client] == Some(id)
}

/// This is the client, once.
pub open spec fn only_client(to: Seq<u128>, client: u128) -> bool {
    &&& to.no_duplicates()
    &&& forall|other: u128| #[trigger] to.contains(other) <==> other == client
}

/// Every client is told the state of a service.
pub open spec fn tells_status(
    action: Action,
    server: Server,
    id: u128,
    status: ServiceStatus,
) -> bool {
    action matches Action::Send { to, message } && all_clients(to@, server) && message == (
    NetMessageS2C::UpdateServiceStatus { id, status })
}

/// Every client that watches the log of a service is told of a line.
pub open spec fn tells_line(
    action: Action,
    server: Server,
    id: u128,
    text: Seq<char>,
    kind: LogKind,
    time: SystemTime,
) -> bool {
    &&& action matches Action::Send { to, message: NetMessageS2C::AddLog(line) }
    &&& all_watchers(to@, server, id)
    &&& line.text@ == text
    &&& line.kind == kind
    &&& line.time == time
}

/// Every client that watches the log of a service is told to clear its copy.
pub open spec fn tells_clear(action: Action, server: Server, id: u128) -> bool {
    action matches Action::Send { to, message } && all_watchers(to@, server, id) && message
        == NetMessageS2C::ClearLogs
}

/// The message is a request of a client.
pub open spec fn request(client: u128, message: NetMessageC2S) -> ServerMessage {
    ServerMessage::ClientMessage { client, message }
}

/// A service is in its view with every field.
proof fn lemma_service_seen(server: Server, id: u128)
    ensures
        server@.clients == server.clients@,
        server@.services.contains_key(id) == server.services@.contains_key(id),
        server.services@.contains_key(id) ==> server@.services[id] == server.services@[id]@,
{
}

/// Configurations with the same view agree in every field.
pub proof fn lemma_same_config(a: ServiceConfig, b: ServiceConfig)
    requires
        a@ == b@,
    ensures
        same_config(a, b),
{
    assert(a@.arguments.len() == a.arguments@.len());
    assert(b@.arguments.len() == b.arguments@.len());
    assert forall|i: int| 0 <= i < a.arguments@.len() implies (#[trigger] a.arguments@[i])@
        == b.arguments@[i]@ by {
        assert(a@.arguments[i] == a.arguments@[i]@);
        assert(b@.arguments[i] == b.arguments@[i]@);
    }
}

proof fn lemma_same_log(a: Service, b: Service)
    requires
        a@.logs == b@.logs,
    ensures
        same_log(a.logs@, b.logs@),
{
    assert(a@.logs.len() == a.logs@.len());
    assert(b@.logs.len() == b.logs@.len());
    assert forall|i: int| 0 <= i < a.logs@.len() implies same_line(
        #[trigger] a.logs@[i],
        b.logs@[i],
    ) by {
        assert(a@.logs[i] == a.logs@[i]@);
        assert(b@.logs[i] == b.logs@[i]@);
    }
}

proof fn lemma_same_service(a: Service, b: Service)
    requires
        a@ == b@,
    ensures
        same_service(a, b),
{
    lemma_same_config(a.config, b.config);
    lemma_same_log(a, b);
}

proof fn lemma_others_same(before: Server, after: Server, id: u128)
    requires
        forall|other: u128| #![trigger after@.services.contains_key(other)]
            other != id ==> {
                &&& after@.services.contains_key(other) == before@.services.contains_key(other)
                &&& after@.services.contains_key(other) ==> after@.services[other]
                    == before@.services[other]
            },
    ensures
        others_same(before, after, id),
{
    assert forall|other: u128| #![trigger after.services@.contains_key(other)]
        #![trigger before.services@.contains_key(other)]
        other != id implies {
            &&& after.services@.contains_key(other) == before.services@.contains_key(other)
            &&& after.services@.contains_key(other) ==> same_service(
                before.services@[other],
                after.services@[other],
            )
        } by {
        lemma_service_seen(before, other);
        lemma_service_seen(after, other);
        assert(after@.services.contains_key(other) == before@.services.contains_key(other));
        if after.services@.contains_key(other) {
            lemma_same_service(before.services@[other], after.services@[other]);
        }
    }
}

proof fn lemma_services_same(before: Server, after: Server)
    requires
        after@.services == before@.services,
    ensures
        services_same(before, after),
{
    assert forall|id: u128| #![trigger after.services@.contains_key(id)]
        #![trigger before.services@.contains_key(id)]
        {
            &&& after.services@.contains_key(id) == before.services@.contains_key(id)
            &&& after.services@.contains_key(id) ==> same_service(
                before.services@[id],
                after.services@[id],
            )
        } by {
        lemma_service_seen(before, id);
        lemma_service_seen(after, id);
        if after.services@.contains_key(id) {
            lemma_same_service(before.services@[id], after.services@[id]);
        }
    }
}

proof fn lemma_action_seen(actions: Seq<Action>, i: int)
    requires
        0 <= i < actions.len(),
    ensures
        action_views(actions)[i] == actions[i]@,
{
}

proof fn lemma_recipients(to: Seq<u128>)
    ensures
        forall|client: u128| to.to_set().contains(client) == #[trigger] to.contains(client),
{
}

proof fn lemma_tells_status(action: Action, server: Server, id: u128, status: ServiceStatus)
    requires
        action@ == server@.broadcast_status(id, status),
        action.wf(),
    ensures
        tells_status(action, server, id, status),
{
    lemma_recipients(action->to@);
}

proof fn lemma_tells_line(action: Action, server: Server, id: u128, line: LogEntryView)
    requires
        action@ == server@.tell_observers(id, NetMessageS2CView::AddLog(line)),
        action.wf(),
    ensures
        tells_line(action, server, id, line.text, line.kind, line.time),
{
    lemma_recipients(action->to@);
}

proof fn lemma_tells_clear(action: Action, server: Server, id: u128)
    requires
        action@ == server@.tell_observers(id, NetMessageS2CView::ClearLogs),
        action.wf(),
    ensures
        tells_clear(action, server, id),
{
    lemma_recipients(action->to@);
}

proof fn lemma_log_pushed(before: Service, after: Service, line: LogEntryView)
    requires
        after@.logs == before@.logs.push(line),
    ensures
        one_line_more(before.logs@, after.logs@, line.text, line.kind, line.time),
{
    assert(before@.logs.len() == before.logs@.len());
    assert(after@.logs.len() == after.logs@.len());
    assert forall|i: int| 0 <= i < before.logs@.len() implies same_line(
        before.logs@[i],
        #[trigger] after.logs@[i],
    ) by {
        assert(before@.logs[i] == before.logs@[i]@);
        assert(after@.logs[i] == after.logs@[i]@);
    }
    assert(after@.logs[after.logs@.len() - 1] == after.logs@.last()@);
}

/// A line that the process of a service wrote, on whichever stream, comes at the
/// end of the log of the service, and the clients that watch the log are told
/// of it. Nothing else changes.
pub proof fn lemma_line_is_logged_and_shown(
    server: &mut Server,
    id: u128,
    line: LogEntry,
    launched: Option<Result<u64, String>>,
    now: SystemTime,
    actions: Vec<Action>,
)
    requires
        call_ensures(
            Server::handle,
            (
                server,
                ServerMessage::Process { id, message: ProcessMessage::Log(line) },
                launched,
                now,
            ),
            actions,
        ),
        old(server).services@.contains_key(id),
    ensures
        only_this_changes(*old(server), *final(server), id),
        ({
            let before = old(server).services@[id];
            let after = final(server).services@[id];
            &&& one_line_more(before.logs@, after.logs@, line.text@, line.kind, line.time)
            &&& after.id == before.id
            &&& after.process == before.process
            &&& after.status == before.status
            &&& after.stopping == before.stopping
            &&& same_config(before.config, after.config)
        }),
        actions@.len() == 1,
        tells_line(actions@[0], *old(server), id, line.text@, line.kind, line.time),
{
    lemma_service_seen(*old(server), id);
    lemma_service_seen(*final(server), id);
    lemma_others_same(*old(server), *final(server), id);
    lemma_same_config(old(server).services@[id].config, final(server).services@[id].config);
    lemma_log_pushed(old(server).services@[id], final(server).services@[id], line@);
    assert(action_views(actions@).len() == actions@.len());
    lemma_action_seen(actions@, 0);
    lemma_tells_line(actions@[0], *old(server), id, line@);
}

/// A service whose process ended has none any more. It is down if its end was
/// wanted and dead if not, and every client is told which. The process is let
/// go. Nothing else changes.
pub proof fn lemma_end_of_process_is_told(
    server: &mut Server,
    id: u128,
    launched: Option<Result<u64, String>>,
    now: SystemTime,
    actions: Vec<Action>,
)
    requires
        call_ensures(
            Server::handle,
            (
                server,
                ServerMessage::Process { id, message: ProcessMessage::Exit },
                launched,
                now,
            ),
            actions,
        ),
        old(server).services@.contains_key(id),
    ensures
        only_this_changes(*old(server), *final(server), id),
        ({
            let before = old(server).services@[id];
            let after = final(server).services@[id];
            &&& after.process is None
            &&& before.stopping ==> after.status == ServiceStatus::Down
            &&& !before.stopping ==> after.status == ServiceStatus::Dead
            &&& after.id == before.id
            &&& after.stopping == before.stopping
            &&& same_log(before.logs@, after.logs@)
            &&& same_config(before.config, after.config)
            &&& before.process is None ==> actions@.len() == 1
            &&& before.process matches Some(process) ==> {
                &&& actions@.len() == 2
                &&& actions@[0] == (Action::Release { process })
            }
            &&& tells_status(actions@.last(), *old(server), id, after.status)
        }),
{
    lemma_service_seen(*old(server), id);
    lemma_service_seen(*final(server), id);
    lemma_others_same(*old(server), *final(server), id);
    lemma_same_config(old(server).services@[id].config, final(server).services@[id].config);
    lemma_same_log(old(server).services@[id], final(server).services@[id]);
    assert(action_views(actions@).len() == actions@.len());
    lemma_action_seen(actions@, 0);
    lemma_action_seen(actions@, actions@.len() - 1);
    lemma_tells_status(
        actions@.last(),
        *old(server),
        id,
        final(server).services@[id].status,
    );
}

/// A process that reports of a service that does not exist is not heard.
pub proof fn lemma_report_of_unknown_service_ignored(
    server: &mut Server,
    id: u128,
    message: ProcessMessage,
    launched: Option<Result<u64, String>>,
    now: SystemTime,
    actions: Vec<Action>,
)
    requires
        call_ensures(
            Server::handle,
            (server, ServerMessage::Process { id, message }, launched, now),
            actions,
        ),
        !old(server).services@.contains_key(id),
    ensures
        services_same(*old(server), *final(server)),
        final(server).clients@ == old(server).clients@,
        actions@.len() == 0,
{
    lemma_service_seen(*old(server), id);
    lemma_services_same(*old(server), *final(server));
    assert(action_views(actions@).len() == actions@.len());
}

/// A start whose launch succeeds: the service runs with the new process, its log
/// is empty, and no end is wanted of it. Every client is told that it runs, and
/// those that watch its log clear their copies. A process that it still had is
/// let go.
pub proof fn lemma_successful_start(
    server: &mut Server,
    client: u128,
    id: u128,
    process: u64,
    now: SystemTime,
    actions: Vec<Action>,
)
    requires
        call_ensures(
            Server::handle,
            (
                server,
                request(client, NetMessageC2S::StartService(id)),
                Some(Ok::<u64, String>(process)),
                now,
            ),
            actions,
        ),
        old(server).services@.contains_key(id),
    ensures
        only_this_changes(*old(server), *final(server), id),
        ({
            let before = old(server).services@[id];
            let after = final(server).services@[id];
            let n = actions@.len() as int;
            &&& after.process == Some(process)
            &&& after.status == ServiceStatus::Running
            &&& after.logs@.len() == 0
            &&& !after.stopping
            &&& after.id == before.id
            &&& same_config(before.config, after.config)
            &&& before.process is None ==> n == 2
            &&& before.process matches Some(replaced) ==> {
                &&& n == 3
                &&& actions@[0] == (Action::Release { process: replaced })
            }
            &&& tells_status(actions@[n - 2], *old(server), id, ServiceStatus::Running)
            &&& tells_clear(actions@[n - 1], *old(server), id)
        }),
{
    lemma_service_seen(*old(server), id);
    lemma_service_seen(*final(server), id);
    lemma_others_same(*old(server), *final(server), id);
    lemma_same_config(old(server).services@[id].config, final(server).services@[id].config);
    assert(final(server).services@[id]@.logs.len() == final(server).services@[id].logs@.len());
    assert(action_views(actions@).len() == actions@.len());
    let n = actions@.len() as int;
    lemma_action_seen(actions@, 0);
    lemma_action_seen(actions@, n - 2);
    lemma_action_seen(actions@, n - 1);
    lemma_tells_status(actions@[n - 2], *old(server), id, ServiceStatus::Running);
    lemma_tells_clear(actions@[n - 1], *old(server), id);
}

/// A start whose launch fails: the start of the service has miscarried, its log
/// holds the reason and nothing else, and no end is wanted of it. Every client
/// is told, and those that watch its log clear their copies.
pub proof fn lemma_failed_start(
    server: &mut Server,
    client: u128,
    id: u128,
    reason: String,
    now: SystemTime,
    actions: Vec<Action>,
)
    requires
        call_ensures(
            Server::handle,
            (
                server,
                request(client, NetMessageC2S::StartService(id)),
                Some(Err::<u64, String>(reason)),
                now,
            ),
            actions,
        ),
        old(server).services@.contains_key(id),
    ensures
        only_this_changes(*old(server), *final(server), id),
        ({
            let before = old(server).services@[id];
            let after = final(server).services@[id];
            &&& after.status == ServiceStatus::Miscarried
            &&& after.logs@.len() == 1
            &&& after.logs@[0].text@ == reason@
            &&& after.logs@[0].kind == LogKind::Error
            &&& after.logs@[0].time == now
            &&& !after.stopping
            &&& after.id == before.id
            &&& after.process == before.process
            &&& same_config(before.config, after.config)
        }),
        actions@.len() == 2,
        tells_status(actions@[0], *old(server), id, ServiceStatus::Miscarried),
        tells_clear(actions@[1], *old(server), id),
{
    lemma_service_seen(*old(server), id);
    lemma_service_seen(*final(server), id);
    lemma_others_same(*old(server), *final(server), id);
    lemma_same_config(old(server).services@[id].config, final(server).services@[id].config);
    let after = final(server).services@[id];
    assert(after@.logs.len() == after.logs@.len());
    assert(after@.logs[0] == after.logs@[0]@);
    assert(action_views(actions@).len() == actions@.len());
    lemma_action_seen(actions@, 0);
    lemma_action_seen(actions@, 1);
    lemma_tells_status(actions@[0], *old(server), id, ServiceStatus::Miscarried);
    lemma_tells_clear(actions@[1], *old(server), id);
}

/// A start that is not attempted leaves the service alone. It is answered all
/// the same: every client is told the state of the service, and those that
/// watch its log clear their copies.
pub proof fn lemma_start_not_attempted(
    server: &mut Server,
    client: u128,
    id: u128,
    now: SystemTime,
    actions: Vec<Action>,
)
    requires
        call_ensures(
            Server::handle,
            (server, request(client, NetMessageC2S::StartService(id)), None, now),
            actions,
        ),
        old(server).services@.contains_key(id),
    ensures
        services_same(*old(server), *final(server)),
        final(server).clients@ == old(server).clients@,
        actions@.len() == 2,
        tells_status(actions@[0], *old(server), id, old(server).services@[id].status),
        tells_clear(actions@[1], *old(server), id),
{
    lemma_service_seen(*old(server), id);
    assert(final(server)@.services =~= old(server)@.services);
    lemma_services_same(*old(server), *final(server));
    assert(action_views(actions@).len() == actions@.len());
    lemma_action_seen(actions@, 0);
    lemma_action_seen(actions@, 1);
    lemma_tells_status(actions@[0], *old(server), id, old(server).services@[id].status);
    lemma_tells_clear(actions@[1], *old(server), id);
}

/// A running service that is told to stop gets the signal to terminate (15) and
/// is stopping: its end is wanted now. Every client is told.
pub proof fn lemma_stop(
    server: &mut Server,
    client: u128,
    id: u128,
    process: u64,
    launched: Option<Result<u64, String>>,
    now: SystemTime,
    actions: Vec<Action>,
)
    requires
        call_ensures(
            Server::handle,
            (server, request(client, NetMessageC2S::StopService(id)), launched, now),
            actions,
        ),
        old(server).services@.contains_key(id),
        old(server).services@[id].status == ServiceStatus::Running,
        old(server).services@[id].process == Some(process),
    ensures
        only_this_changes(*old(server), *final(server), id),
        ({
            let before = old(server).services@[id];
            let after = final(server).services@[id];
            &&& after.status == ServiceStatus::Stopping
            &&& after.stopping
            &&& after.id == before.id
            &&& after.process == before.process
            &&& same_log(before.logs@, after.logs@)
            &&& same_config(before.config, after.config)
        }),
        actions@.len() == 2,
        actions@[0] == (Action::Signal { process, signal: 15 }),
        tells_status(actions@[1], *old(server), id, ServiceStatus::Stopping),
{
    lemma_service_seen(*old(server), id);
    lemma_service_seen(*final(server), id);
    lemma_others_same(*old(server), *final(server), id);
    lemma_same_config(old(server).services@[id].config, final(server).services@[id].config);
    lemma_same_log(old(server).services@[id], final(server).services@[id]);
    assert(action_views(actions@).len() == actions@.len());
    lemma_action_seen(actions@, 0);
    lemma_action_seen(actions@, 1);
    lemma_tells_status(actions@[1], *old(server), id, ServiceStatus::Stopping);
}

/// A kill request for a service that is running or stopping leads to one thing:
/// the process of the service is killed. Its end is wanted now.
pub proof fn lemma_kill(
    server: &mut Server,
    client: u128,
    id: u128,
    process: u64,
    launched: Option<Result<u64, String>>,
    now: SystemTime,
    actions: Vec<Action>,
)
    requires
        call_ensures(
            Server::handle,
            (server, request(client, NetMessageC2S::KillService(id)), launched, now),
            actions,
        ),
        old(server).services@.contains_key(id),
        old(server).services@[id].status == ServiceStatus::Running || old(
            server,
        ).services@[id].status == ServiceStatus::Stopping,
        old(server).services@[id].process == Some(process),
    ensures
        only_this_changes(*old(server), *final(server), id),
        ({
            let before = old(server).services@[id];
            let after = final(server).services@[id];
            &&& after.stopping
            &&& after.id == before.id
            &&& after.process == before.process
            &&& after.status == before.status
            &&& same_log(before.logs@, after.logs@)
            &&& same_config(before.config, after.config)
        }),
        actions@.len() == 1,
        actions@[0] == (Action::Kill { process }),
{
    lemma_service_seen(*old(server), id);
    lemma_service_seen(*final(server), id);
    lemma_others_same(*old(server), *final(server), id);
    lemma_same_config(old(server).services@[id].config, final(server).services@[id].config);
    lemma_same_log(old(server).services@[id], final(server).services@[id]);
    assert(action_views(actions@).len() == actions@.len());
    lemma_action_seen(actions@, 0);
}

/// A running service that is paused gets the signal to suspend (19). Every
/// client is told.
pub proof fn lemma_pause(
    server: &mut Server,
    client: u128,
    id: u128,
    process: u64,
    launched: Option<Result<u64, String>>,
    now: SystemTime,
    actions: Vec<Action>,
)
    requires
        call_ensures(
            Server::handle,
            (server, request(client, NetMessageC2S::PauseService(id)), launched, now),
            actions,
        ),
        old(server).services@.contains_key(id),
        old(server).services@[id].status == ServiceStatus::Running,
        old(server).services@[id].process == Some(process),
    ensures
        only_this_changes(*old(server), *final(server), id),
        ({
            let before = old(server).services@[id];
            let after = final(server).services@[id];
            &&& after.status == ServiceStatus::Paused
            &&& after.id == before.id
            &&& after.process == before.process
            &&& after.stopping == before.stopping
            &&& same_log(before.logs@, after.logs@)
            &&& same_config(before.config, after.config)
        }),
        actions@.len() == 2,
        actions@[0] == (Action::Signal { process, signal: 19 }),
        tells_status(actions@[1], *old(server), id, ServiceStatus::Paused),
{
    lemma_service_seen(*old(server), id);
    lemma_service_seen(*final(server), id);
    lemma_others_same(*old(server), *final(server), id);
    lemma_same_config(old(server).services@[id].config, final(server).services@[id].config);
    lemma_same_log(old(server).services@[id], final(server).services@[id]);
    assert(action_views(actions@).len() == actions@.len());
    lemma_action_seen(actions@, 0);
    lemma_action_seen(actions@, 1);
    lemma_tells_status(actions@[1], *old(server), id, ServiceStatus::Paused);
}

/// A paused service that is resumed gets the signal to go on (18). Every client
/// is told.
pub proof fn lemma_unpause(
    server: &mut Server,
    client: u128,
    id: u128,
    process: u64,
    launched: Option<Result<u64, String>>,
    now: SystemTime,
    actions: Vec<Action>,
)
    requires
        call_ensures(
            Server::handle,
            (server, request(client, NetMessageC2S::UnpauseService(id)), launched, now),
            actions,
        ),
        old(server).services@.contains_key(id),
        old(server).services@[id].status == ServiceStatus::Paused,
        old(server).services@[id].process == Some(process),
    ensures
        only_this_changes(*old(server), *final(server), id),
        ({
            let before = old(server).services@[id];
            let after = final(server).services@[id];
            &&& after.status == ServiceStatus::Running
            &&& after.id == before.id
            &&& after.process == before.process
            &&& after.stopping == before.stopping
            &&& same_log(before.logs@, after.logs@)
            &&& same_config(before.config, after.config)
        }),
        actions@.len() == 2,
        actions@[0] == (Action::Signal { process, signal: 18 }),
        tells_status(actions@[1], *old(server), id, ServiceStatus::Running),
{
    lemma_service_seen(*old(server), id);
    lemma_service_seen(*final(server), id);
    lemma_others_same(*old(server), *final(server), id);
    lemma_same_config(old(server).services@[id].config, final(server).services@[id].config);
    lemma_same_log(old(server).services@[id], final(server).services@[id]);
    assert(action_views(actions@).len() == actions@.len());
    lemma_action_seen(actions@, 0);
    lemma_action_seen(actions@, 1);
    lemma_tells_status(actions@[1], *old(server), id, ServiceStatus::Running);
}

/// A client that watches the log of a service first clears its copy and then
/// gets every line of the log, in order. From then on it watches this log and no
/// other.
pub proof fn lemma_watching_begins(
    server: &mut Server,
    client: u128,
    id: u128,
    launched: Option<Result<u64, String>>,
    now: SystemTime,
    actions: Vec<Action>,
)
    requires
        call_ensures(
            Server::handle,
            (server, request(client, NetMessageC2S::MonitorLog(id)), launched, now),
            actions,
        ),
        old(server).services@.contains_key(id),
        old(server).clients@.contains_key(client),
    ensures
        services_same(*old(server), *final(server)),
        final(server).clients@ == old(server).clients@.insert(client, Some(id)),
        actions@.len() == 1 + old(server).services@[id].logs@.len(),
        actions@[0] matches Action::Send { to, message } && only_client(to@, client) && message
            == NetMessageS2C::ClearLogs,
        forall|i: int|
            0 <= i < old(server).services@[id].logs@.len() ==> sends_line(
                #[trigger] actions@[i + 1],
                client,
                old(server).services@[id].logs@[i],
            ),
{
    let service = old(server).services@[id];
    lemma_service_seen(*old(server), id);
    lemma_services_same(*old(server), *final(server));
    assert(service@.logs.len() == service.logs@.len());
    assert(action_views(actions@).len() == actions@.len());
    lemma_action_seen(actions@, 0);
    lemma_recipients(actions@[0]->to@);
    assert forall|i: int| 0 <= i < service.logs@.len() implies sends_line(
        #[trigger] actions@[i + 1],
        client,
        service.logs@[i],
    ) by {
        lemma_action_seen(actions@, i + 1);
        assert(service@.logs[i] == service.logs@[i]@);
        lemma_recipients(actions@[i + 1]->to@);
    }
}

/// The client is told of this line.
pub open spec fn sends_line(action: Action, client: u128, line: LogEntry) -> bool {
    action matches Action::Send { to, message: NetMessageS2C::AddLog(sent) } && only_client(
        to@,
        client,
    ) && same_line(sent, line)
}

/// A client that cancels watches no log any more.
pub proof fn lemma_watching_ends(
    server: &mut Server,
    client: u128,
    launched: Option<Result<u64, String>>,
    now: SystemTime,
    actions: Vec<Action>,
)
    requires
        call_ensures(
            Server::handle,
            (server, request(client, NetMessageC2S::CancelMonitorLog), launched, now),
            actions,
        ),
        old(server).clients@.contains_key(client),
    ensures
        services_same(*old(server), *final(server)),
        final(server).clients@ == old(server).clients@.insert(client, None),
        actions@.len() == 0,
{
    lemma_services_same(*old(server), *final(server));
    assert(action_views(actions@).len() == actions@.len());
}

/// A service that is configured has exactly the requested configuration, whether
/// it existed or not; the same one is saved to its file, and every client is
/// told it. All else of a service that existed stays; one that did not exist was
/// never started.
pub proof fn lemma_configuration_is_taken_over(
    server: &mut Server,
    client: u128,
    id: u128,
    config: ServiceConfig,
    launched: Option<Result<u64, String>>,
    now: SystemTime,
    actions: Vec<Action>,
)
    requires
        call_ensures(
            Server::handle,
            (
                server,
                request(client, NetMessageC2S::UpdateServiceConfig { id, config }),
                launched,
                now,
            ),
            actions,
        ),
    ensures
        final(server).services@.contains_key(id),
        same_config(config, final(server).services@[id].config),
        old(server).services@.contains_key(id) ==> {
            let before = old(server).services@[id];
            let after = final(server).services@[id];
            &&& after.id == before.id
            &&& after.process == before.process
            &&& after.status == before.status
            &&& after.stopping == before.stopping
            &&& same_log(before.logs@, after.logs@)
        },
        !old(server).services@.contains_key(id) ==> never_started(final(server).services@[id], id),
        others_same(*old(server), *final(server), id),
        final(server).clients@ == old(server).clients@,
        actions@.len() == 2,
        actions@[0] matches Action::SaveConfig { file_name, config: saved } && file_name@
            == hyphenated(id) && same_config(config, saved),
        actions@[1] matches Action::Send {
            to,
            message: NetMessageS2C::UpdateServiceConfig { id: told, config: sent },
        } && all_clients(to@, *old(server)) && told == id && same_config(config, sent),
{
    lemma_service_seen(*old(server), id);
    lemma_service_seen(*final(server), id);
    lemma_others_same(*old(server), *final(server), id);
    let after = final(server).services@[id];
    lemma_same_config(config, after.config);
    if old(server).services@.contains_key(id) {
        lemma_same_log(old(server).services@[id], after);
    } else {
        assert(after@.logs.len() == after.logs@.len());
    }
    assert(action_views(actions@).len() == actions@.len());
    lemma_action_seen(actions@, 0);
    lemma_action_seen(actions@, 1);
    lemma_same_config(config, actions@[0]->SaveConfig_config);
    lemma_recipients(actions@[1]->to@);
    lemma_same_config(config, actions@[1]->message->UpdateServiceConfig_config);
}

/// A service with this identifier that has no process and no log, is down, and
/// was not told to stop.
pub open spec fn never_started(service: Service, id: u128) -> bool {
    &&& service.id == id
    &&& service.process is None
    &&& service.status == ServiceStatus::Down
    &&& service.logs@.len() == 0
    &&& !service.stopping
}

/// A service that is removed is gone: its file is removed, its process let go if
/// it has one, and every client is told.
pub proof fn lemma_removal_is_complete(
    server: &mut Server,
    client: u128,
    id: u128,
    launched: Option<Result<u64, String>>,
    now: SystemTime,
    actions: Vec<Action>,
)
    requires
        call_ensures(
            Server::handle,
            (server, request(client, NetMessageC2S::RemoveService(id)), launched, now),
            actions,
        ),
        old(server).services@.contains_key(id),
        old(server).services@[id].status != ServiceStatus::Running,
        old(server).services@[id].status != ServiceStatus::Stopping,
    ensures
        !final(server).services@.contains_key(id),
        others_same(*old(server), *final(server), id),
        final(server).clients@ == old(server).clients@,
        actions@[0] matches Action::DeleteConfig { file_name } && file_name@ == hyphenated(id),
        old(server).services@[id].process is None ==> actions@.len() == 2,
        old(server).services@[id].process matches Some(process) ==> {
            &&& actions@.len() == 3
            &&& actions@[1] == (Action::Release { process })
        },
        actions@.last() matches Action::Send { to, message } && all_clients(to@, *old(server))
            && message == NetMessageS2C::RemoveService(id),
{
    lemma_service_seen(*old(server), id);
    lemma_service_seen(*final(server), id);
    lemma_others_same(*old(server), *final(server), id);
    assert(action_views(actions@).len() == actions@.len());
    lemma_action_seen(actions@, 0);
    lemma_action_seen(actions@, 1);
    lemma_action_seen(actions@, actions@.len() - 1);
    lemma_recipients(actions@.last()->to@);
}

/// A text from a client that watches the log of a service with a process goes to
/// the input of that process, whatever the log holds. It comes at the end of the
/// log, and all who watch the log are told of it.
pub proof fn lemma_text_reaches_process(
    server: &mut Server,
    client: u128,
    id: u128,
    process: u64,
    text: String,
    launched: Option<Result<u64, String>>,
    now: SystemTime,
    actions: Vec<Action>,
)
    requires
        call_ensures(
            Server::handle,
            (server, request(client, NetMessageC2S::SendIn(text)), launched, now),
            actions,
        ),
        old(server).clients@.contains_key(client),
        old(server).clients@[client] == Some(id),
        old(server).services@.contains_key(id),
        old(server).services@[id].process == Some(process),
    ensures
        only_this_changes(*old(server), *final(server), id),
        ({
            let before = old(server).services@[id];
            let after = final(server).services@[id];
            &&& one_line_more(before.logs@, after.logs@, text@, LogKind::In, now)
            &&& after.id == before.id
            &&& after.process == before.process
            &&& after.status == before.status
            &&& after.stopping == before.stopping
            &&& same_config(before.config, after.config)
        }),
        actions@.len() == 2,
        tells_line(actions@[0], *old(server), id, text@, LogKind::In, now),
        actions@[1] matches Action::WriteInput { process: reached, text: written } && reached
            == process && written@ == text@,
{
    let line = LogEntryView { text: text@, kind: LogKind::In, time: now };
    lemma_service_seen(*old(server), id);
    lemma_service_seen(*final(server), id);
    lemma_others_same(*old(server), *final(server), id);
    lemma_same_config(old(server).services@[id].config, final(server).services@[id].config);
    lemma_log_pushed(old(server).services@[id], final(server).services@[id], line);
    assert(action_views(actions@).len() == actions@.len());
    lemma_action_seen(actions@, 0);
    lemma_action_seen(actions@, 1);
    lemma_tells_line(actions@[0], *old(server), id, line);
}

/// There is such a service, in this state.
pub open spec fn is_in(server: Server, id: u128, status: ServiceStatus) -> bool {
    server.services@.contains_key(id) && server.services@[id].status == status
}

/// The request comes to nothing: the service does not exist or is not in a state
/// for it, or the client is not connected or watches no service with a process.
pub open spec fn comes_to_nothing(server: Server, client: u128, message: NetMessageC2S) -> bool {
    match message {
        NetMessageC2S::StartService(id) => !server.services@.contains_key(id),
        NetMessageC2S::StopService(id) => !is_in(server, id, ServiceStatus::Running),
        NetMessageC2S::PauseService(id) => !is_in(server, id, ServiceStatus::Running),
        NetMessageC2S::UnpauseService(id) => !is_in(server, id, ServiceStatus::Paused),
        NetMessageC2S::KillService(id) => !is_in(server, id, ServiceStatus::Running) && !is_in(
            server,
            id,
            ServiceStatus::Stopping,
        ),
        NetMessageC2S::MonitorLog(id) => !server.services@.contains_key(id)
            || !server.clients@.contains_key(client),
        NetMessageC2S::CancelMonitorLog => !server.clients@.contains_key(client),
        NetMessageC2S::UpdateServiceConfig { .. } => false,
        NetMessageC2S::RemoveService(id) => !server.services@.contains_key(id) || is_in(
            server,
            id,
            ServiceStatus::Running,
        ) || is_in(server, id, ServiceStatus::Stopping),
        NetMessageC2S::SendIn(_) => !server.clients@.contains_key(client)
            || match server.clients@[client] {
            None => true,
            Some(id) => !server.services@.contains_key(id)
                || server.services@[id].process is None,
        },
    }
}

/// A request that comes to nothing changes nothing, and nobody is told.
pub proof fn lemma_nothing_comes_of_it(
    server: &mut Server,
    client: u128,
    message: NetMessageC2S,
    launched: Option<Result<u64, String>>,
    now: SystemTime,
    actions: Vec<Action>,
)
    requires
        call_ensures(Server::handle, (server, request(client, message), launched, now), actions),
        comes_to_nothing(*old(server), client, message),
    ensures
        services_same(*old(server), *final(server)),
        final(server).clients@ == old(server).clients@,
        actions@.len() == 0,
{
    assert forall|id: u128| #[trigger] old(server)@.services.contains_key(id) == old(
        server,
    ).services@.contains_key(id) by {
        lemma_service_seen(*old(server), id);
    }
    assert forall|id: u128| #[trigger] old(server).services@.contains_key(id) implies old(
        server,
    )@.services[id] == old(server).services@[id]@ by {
        lemma_service_seen(*old(server), id);
    }
    assert(final(server)@ == old(server)@);
    lemma_services_same(*old(server), *final(server));
    assert(action_views(actions@).len() == actions@.len());
}

/// What a welcome holds of one service.
proof fn lemma_welcome_at(state: ServerView, client: u128, order: Seq<u128>, k: int)
    requires
        0 <= k < order.len(),
    ensures
        welcome(state, client, order).len() == 2 * order.len(),
        welcome(state, client, order)[2 * k] == (ActionView::Send {
            to: set![client],
            message: NetMessageS2CView::UpdateServiceConfig {
                id: order[k],
                config: state.services[order[k]].config,
            },
        }),
        welcome(state, client, order)[2 * k + 1] == (ActionView::Send {
            to: set![client],
            message: NetMessageS2CView::UpdateServiceStatus {
                id: order[k],
                status: state.services[order[k]].status,
            },
        }),
    decreases order.len(),
{
    let before = order.drop_last();
    if before.len() > 0 {
        lemma_welcome_at(state, client, before, if k < before.len() {
            k
        } else {
            0
        });
    } else {
        assert(welcome(state, client, before).len() == 0);
    }
}

/// The client is told the configuration of a service.
pub open spec fn sends_config(action: Action, client: u128, id: u128, config: ServiceConfig) -> bool {
    action matches Action::Send {
        to,
        message: NetMessageS2C::UpdateServiceConfig { id: told, config: sent },
    } && only_client(to@, client) && told == id && same_config(config, sent)
}

/// The client is told the state of a service.
pub open spec fn sends_status(action: Action, client: u128, id: u128, status: ServiceStatus) -> bool {
    action matches Action::Send { to, message } && only_client(to@, client) && message == (
    NetMessageS2C::UpdateServiceStatus { id, status })
}

/// These actions tell a client the configuration and then the state of each
/// service, service by service, and nothing else.
pub open spec fn introduces(
    actions: Seq<Action>,
    server: Server,
    client: u128,
    order: Seq<u128>,
) -> bool {
    &&& order.no_duplicates()
    &&& forall|id: u128| #[trigger] order.contains(id) <==> server.services@.contains_key(id)
    &&& actions.len() == 2 * order.len()
    &&& forall|k: int|
        0 <= k < order.len() ==> {
            &&& sends_config(
                actions[2 * k],
                client,
                #[trigger] order[k],
                server.services@[order[k]].config,
            )
            &&& sends_status(
                actions[2 * k + 1],
                client,
                order[k],
                server.services@[order[k]].status,
            )
        }
}

/// A client that connects is told the configuration and the state of every
/// service, each once, and watches no log. Nobody else is told anything.
pub proof fn lemma_new_client_is_introduced(
    server: &mut Server,
    client: u128,
    launched: Option<Result<u64, String>>,
    now: SystemTime,
    actions: Vec<Action>,
)
    requires
        call_ensures(
            Server::handle,
            (server, ServerMessage::ClientConnect(client), launched, now),
            actions,
        ),
    ensures
        services_same(*old(server), *final(server)),
        final(server).clients@ == old(server).clients@.insert(client, None),
        exists|order: Seq<u128>| introduces(actions@, *old(server), client, order),
{
    let state = old(server)@;
    lemma_services_same(*old(server), *final(server));
    let order = choose|order: Seq<u128>|
        enumerates(order, state.services.dom()) && action_views(actions@) == #[trigger] welcome(
            state,
            client,
            order,
        );
    assert(action_views(actions@).len() == actions@.len());
    assert forall|id: u128| #[trigger] order.contains(id) <==> old(
        server,
    ).services@.contains_key(id) by {
        lemma_service_seen(*old(server), id);
        assert(order.to_set().contains(id) == order.contains(id));
    }
    assert forall|k: int| 0 <= k < order.len() implies {
        &&& sends_config(
            actions@[2 * k],
            client,
            #[trigger] order[k],
            old(server).services@[order[k]].config,
        )
        &&& sends_status(
            actions@[2 * k + 1],
            client,
            order[k],
            old(server).services@[order[k]].status,
        )
    } by {
        lemma_welcome_at(state, client, order, k);
        assert(order.contains(order[k]));
        lemma_service_seen(*old(server), order[k]);
        lemma_action_seen(actions@, 2 * k);
        lemma_action_seen(actions@, 2 * k + 1);
        lemma_recipients(actions@[2 * k]->to@);
        lemma_recipients(actions@[2 * k + 1]->to@);
        lemma_same_config(
            old(server).services@[order[k]].config,
            actions@[2 * k]->message->UpdateServiceConfig_config,
        );
    }
    if order.len() > 0 {
        lemma_welcome_at(state, client, order, 0);
    }
    assert(introduces(actions@, *old(server), client, order));
}

/// A client that is gone is forgotten, and its connection closed if it was
/// connected.
pub proof fn lemma_gone_client_is_forgotten(
    server: &mut Server,
    client: u128,
    launched: Option<Result<u64, String>>,
    now: SystemTime,
    actions: Vec<Action>,
)
    requires
        call_ensures(
            Server::handle,
            (server, ServerMessage::ClientDisconnect(client), launched, now),
            actions,
        ),
    ensures
        services_same(*old(server), *final(server)),
        final(server).clients@ == old(server).clients@.remove(client),
        old(server).clients@.contains_key(client) ==> actions@.len() == 1 && actions@[0] == (
        Action::Close { client }),
        !old(server).clients@.contains_key(client) ==> actions@.len() == 0,
{
    lemma_services_same(*old(server), *final(server));
    assert(action_views(actions@).len() == actions@.len());
    if actions@.len() > 0 {
        lemma_action_seen(actions@, 0);
    }
}

/// A service that is running, stopping or paused has a process, one that is
/// stopping remembers that its end is wanted, and a service is kept under its
/// own identifier.
pub open spec fn in_order(server: Server) -> bool {
    forall|id: u128| #[trigger]
        server.services@.contains_key(id) ==> {
            let service = server.services@[id];
            &&& service.id == id
            &&& service.status == ServiceStatus::Running || service.status
                == ServiceStatus::Stopping || service.status == ServiceStatus::Paused
                ==> service.process is Some
            &&& service.status == ServiceStatus::Stopping ==> service.stopping
        }
}

/// A server in order is what the server's functions take, and what they leave.
proof fn lemma_in_order(server: Server)
    ensures
        in_order(server) == server@.wf(),
{
    assert forall|id: u128| #[trigger] server@.services.contains_key(id)
        == server.services@.contains_key(id) by {
        lemma_service_seen(server, id);
    }
    assert forall|id: u128| #[trigger] server.services@.contains_key(id) implies server@.services[id]
        == server.services@[id]@ by {
        lemma_service_seen(server, id);
    }
    if in_order(server) {
        assert forall|id: u128| #[trigger] server@.services.contains_key(id) implies
            server@.services[id].wf() && server@.services[id].id == id by {
            assert(server.services@.contains_key(id));
        }
    }
    if server@.wf() {
        assert forall|id: u128| #[trigger] server.services@.contains_key(id) implies {
            let service = server.services@[id];
            &&& service.id == id
            &&& service.status == ServiceStatus::Running || service.status
                == ServiceStatus::Stopping || service.status == ServiceStatus::Paused
                ==> service.process is Some
            &&& service.status == ServiceStatus::Stopping ==> service.stopping
        } by {
            assert(server@.services.contains_key(id));
        }
    }
}

/// The message asks for the start of a service that exists and is neither
/// running nor stopping.
pub open spec fn asks_for_launch(server: Server, message: ServerMessage) -> bool {
    message matches ServerMessage::ClientMessage { message: NetMessageC2S::StartService(id), .. }
        && server.services@.contains_key(id) && server.services@[id].status
        != ServiceStatus::Running && server.services@[id].status != ServiceStatus::Stopping
}

/// A server in order takes every message, as long as a process was launched
/// exactly where one was asked for, and is in order afterwards.
pub proof fn lemma_every_message_is_taken(
    server: &mut Server,
    message: ServerMessage,
    launched: Option<Result<u64, String>>,
    now: SystemTime,
    actions: Vec<Action>,
)
    requires
        in_order(*old(server)),
        launched is Some == asks_for_launch(*old(server), message),
    ensures
        call_requires(Server::handle, (server, message, launched, now)),
        call_ensures(Server::handle, (server, message, launched, now), actions) ==> in_order(
            *final(server),
        ),
{
    lemma_in_order(*old(server));
    lemma_in_order(*final(server));
    if let ServerMessage::ClientMessage { message: NetMessageC2S::StartService(id), .. } =
        message {
        lemma_service_seen(*old(server), id);
    }
}

/// A process is to be launched exactly where a service is to be started that
/// exists and is neither running nor stopping: for that service, with its
/// configuration.
pub proof fn lemma_launch_is_requested(
    server: &Server,
    message: &ServerMessage,
    launch: Option<(u128, ServiceConfig)>,
)
    requires
        call_ensures(Server::launch_request, (server, message), launch),
    ensures
        launch is Some == asks_for_launch(*server, *message),
        launch matches Some((id, config)) ==> {
            &&& message matches ServerMessage::ClientMessage {
                message: NetMessageC2S::StartService(asked),
                ..
            } && asked == id
            &&& same_config(server.services@[id].config, config)
        },
{
    if let ServerMessage::ClientMessage { message: NetMessageC2S::StartService(id), .. } =
        *message {
        lemma_service_seen(*server, id);
    }
    if let Some((id, config)) = launch {
        lemma_service_seen(*server, id);
        lemma_same_config(server.services@[id].config, config);
    }
}

/// A new server has no services and no clients.
pub proof fn lemma_new_server_is_empty(server: Server)
    requires
        call_ensures(Server::new, (), server),
    ensures
        forall|id: u128| !(#[trigger] server.services@.contains_key(id)),
        forall|client: u128| !(#[trigger] server.clients@.contains_key(client)),
{
    assert forall|id: u128| !(#[trigger] server.services@.contains_key(id)) by {
        lemma_service_seen(server, id);
    }
}

/// The service starts on its own, and is neither running nor stopping.
pub open spec fn starts_on_its_own(server: Server, id: u128) -> bool {
    &&& server.services@.contains_key(id)
    &&& server.services@[id].config.auto_start
    &&& server.services@[id].status != ServiceStatus::Running
    &&& server.services@[id].status != ServiceStatus::Stopping
}

/// When the server begins its work, exactly the services that start on their own
/// are to be launched, each once and with its own configuration.
pub proof fn lemma_launches_at_the_beginning(
    server: &Server,
    launches: Vec<(u128, ServiceConfig)>,
)
    requires
        call_ensures(Server::auto_start_requests, (server,), launches),
    ensures
        forall|i: int|
            0 <= i < launches@.len() ==> starts_on_its_own(*server, (#[trigger] launches@[i]).0)
                && same_config(server.services@[launches@[i].0].config, launches@[i].1),
        forall|id: u128| #[trigger]
            starts_on_its_own(*server, id) ==> exists|i: int|
                0 <= i < launches@.len() && (#[trigger] launches@[i]).0 == id,
        forall|i: int, j: int|
            0 <= i < j < launches@.len() ==> (#[trigger] launches@[i]).0 != (
            #[trigger] launches@[j]).0,
{
    let ids = launches@.map_values(|launch: (u128, ServiceConfig)| launch.0);
    assert(ids.len() == launches@.len());
    assert forall|i: int| 0 <= i < launches@.len() implies starts_on_its_own(
        *server,
        (#[trigger] launches@[i]).0,
    ) && same_config(server.services@[launches@[i].0].config, launches@[i].1) by {
        let id = launches@[i].0;
        assert(ids[i] == id);
        assert(ids.to_set().contains(id));
        lemma_service_seen(*server, id);
        lemma_same_config(server.services@[id].config, launches@[i].1);
    }
    assert forall|id: u128| #[trigger] starts_on_its_own(*server, id) implies exists|i: int|
        0 <= i < launches@.len() && (#[trigger] launches@[i]).0 == id by {
        lemma_service_seen(*server, id);
        assert(server@.auto_starting().contains(id));
        assert(ids.to_set().contains(id));
        let i = ids.index_of(id);
        assert(ids[i] == id);
        assert(launches@[i].0 == id);
    }
    assert forall|i: int, j: int| 0 <= i < j < launches@.len() implies (
    #[trigger] launches@[i]).0 != (#[trigger] launches@[j]).0 by {
        assert(ids[i] != ids[j]);
    }
}

/// A service that starts on its own and whose launch succeeds runs with the new
/// process, an empty log and no end wanted of it.
pub proof fn lemma_successful_start_at_the_beginning(
    server: &mut Server,
    id: u128,
    process: u64,
    now: SystemTime,
    replaced: Option<u64>,
)
    requires
        call_ensures(Server::auto_started, (server, id, Ok::<u64, String>(process), now), replaced),
        old(server).services@.contains_key(id),
    ensures
        only_this_changes(*old(server), *final(server), id),
        replaced == old(server).services@[id].process,
        ({
            let before = old(server).services@[id];
            let after = final(server).services@[id];
            &&& after.process == Some(process)
            &&& after.status == ServiceStatus::Running
            &&& after.logs@.len() == 0
            &&& !after.stopping
            &&& after.id == before.id
            &&& same_config(before.config, after.config)
        }),
{
    lemma_service_seen(*old(server), id);
    lemma_service_seen(*final(server), id);
    lemma_others_same(*old(server), *final(server), id);
    lemma_same_config(old(server).services@[id].config, final(server).services@[id].config);
    assert(final(server).services@[id]@.logs.len() == final(server).services@[id].logs@.len());
}

/// A service that starts on its own and whose launch fails has miscarried, with
/// the reason in its log and nothing else.
pub proof fn lemma_failed_start_at_the_beginning(
    server: &mut Server,
    id: u128,
    reason: String,
    now: SystemTime,
    replaced: Option<u64>,
)
    requires
        call_ensures(Server::auto_started, (server, id, Err::<u64, String>(reason), now), replaced),
        old(server).services@.contains_key(id),
    ensures
        only_this_changes(*old(server), *final(server), id),
        replaced is None,
        ({
            let before = old(server).services@[id];
            let after = final(server).services@[id];
            &&& after.status == ServiceStatus::Miscarried
            &&& after.logs@.len() == 1
            &&& after.logs@[0].text@ == reason@
            &&& after.logs@[0].kind == LogKind::Error
            &&& after.logs@[0].time == now
            &&& !after.stopping
            &&& after.id == before.id
            &&& after.process == before.process
            &&& same_config(before.config, after.config)
        }),
{
    lemma_service_seen(*old(server), id);
    lemma_service_seen(*final(server), id);
    lemma_others_same(*old(server), *final(server), id);
    lemma_same_config(old(server).services@[id].config, final(server).services@[id].config);
    let after = final(server).services@[id];
    assert(after@.logs.len() == after.logs@.len());
    assert(after@.logs[0] == after.logs@[0]@);
}

/// What a file was found to belong to is restored: a service that was never
/// started, with the configuration of the file. A file that belongs to nothing
/// adds nothing.
pub proof fn lemma_restored_service(
    server: &mut Server,
    found: Option<u128>,
    config: ServiceConfig,
)
    requires
        call_ensures(Server::restore, (server, found, config), ()),
    ensures
        final(server).clients@ == old(server).clients@,
        found is None ==> services_same(*old(server), *final(server)),
        found matches Some(id) ==> {
            &&& final(server).services@.contains_key(id)
            &&& never_started(final(server).services@[id], id)
            &&& same_config(config, final(server).services@[id].config)
            &&& others_same(*old(server), *final(server), id)
        },
{
    match found {
        None => {
            lemma_services_same(*old(server), *final(server));
        },
        Some(id) => {
            let after = final(server).services@[id];
            lemma_service_seen(*final(server), id);
            lemma_others_same(*old(server), *final(server), id);
            lemma_same_config(config, after.config);
            assert(after@.logs.len() == after.logs@.len());
        },
    }
}

/// What reading files makes of one service: the last of its files counts.
proof fn lemma_loaded_service(state: ServerView, files: Seq<FileView>, id: u128, last: int)
    requires
        -1 <= last < files.len(),
        last >= 0 ==> parsed_uuid(files[last].0) == Some(id),
        forall|i: int|
            last < i < files.len() ==> parsed_uuid((#[trigger] files[i]).0) != Some(id),
    ensures
        loaded(state, files).clients == state.clients,
        last >= 0 ==> {
            &&& loaded(state, files).services.contains_key(id)
            &&& loaded(state, files).services[id] == ServiceView::fresh(id, files[last].1)
        },
        last < 0 ==> {
            &&& loaded(state, files).services.contains_key(id) == state.services.contains_key(id)
            &&& state.services.contains_key(id) ==> loaded(state, files).services[id]
                == state.services[id]
        },
    decreases files.len(),
{
    if files.len() > 0 {
        let before = files.drop_last();
        if last == files.len() - 1 {
            lemma_loaded_clients(state, before);
        } else {
            assert forall|i: int| last < i < before.len() implies parsed_uuid(
                (#[trigger] before[i]).0,
            ) != Some(id) by {
                assert(before[i] == files[i]);
            }
            lemma_loaded_service(state, before, id, last);
            assert(files[files.len() - 1] == files.last());
        }
    }
}

proof fn lemma_loaded_clients(state: ServerView, files: Seq<FileView>)
    ensures
        loaded(state, files).clients == state.clients,
    decreases files.len(),
{
    if files.len() > 0 {
        lemma_loaded_clients(state, files.drop_last());
    }
}

/// A service of which files are read was never started and has the configuration
/// of the last of its files.
pub proof fn lemma_last_file_counts(
    server: &mut Server,
    files: Vec<(String, ServiceConfig)>,
    id: u128,
    last: int,
)
    requires
        call_ensures(Server::load, (server, files), ()),
        0 <= last < files@.len(),
        parsed_uuid(files@[last].0@) == Some(id),
        forall|i: int|
            last < i < files@.len() ==> parsed_uuid((#[trigger] files@[i]).0@) != Some(id),
    ensures
        final(server).services@.contains_key(id),
        never_started(final(server).services@[id], id),
        same_config(files@[last].1, final(server).services@[id].config),
        final(server).clients@ == old(server).clients@,
{
    let views = file_views(files@);
    assert forall|i: int| last < i < views.len() implies parsed_uuid((#[trigger] views[i]).0)
        != Some(id) by {
        assert(views[i].0 == files@[i].0@);
    }
    assert(views[last] == (files@[last].0@, files@[last].1@));
    lemma_loaded_service(old(server)@, views, id, last);
    lemma_service_seen(*final(server), id);
    let after = final(server).services@[id];
    lemma_same_config(files@[last].1, after.config);
    assert(after@.logs.len() == after.logs@.len());
}

/// Files of other services leave a service alone.
pub proof fn lemma_files_of_others_change_nothing(
    server: &mut Server,
    files: Vec<(String, ServiceConfig)>,
    id: u128,
)
    requires
        call_ensures(Server::load, (server, files), ()),
        forall|i: int|
            0 <= i < files@.len() ==> parsed_uuid((#[trigger] files@[i]).0@) != Some(id),
    ensures
        final(server).services@.contains_key(id) == old(server).services@.contains_key(id),
        old(server).services@.contains_key(id) ==> same_service(
            old(server).services@[id],
            final(server).services@[id],
        ),
        final(server).clients@ == old(server).clients@,
{
    let views = file_views(files@);
    assert forall|i: int| 0 <= i < views.len() implies parsed_uuid((#[trigger] views[i]).0)
        != Some(id) by {
        assert(views[i].0 == files@[i].0@);
    }
    lemma_loaded_service(old(server)@, views, id, -1);
    lemma_service_seen(*old(server), id);
    lemma_service_seen(*final(server), id);
    if old(server).services@.contains_key(id) {
        lemma_same_service(old(server).services@[id], final(server).services@[id]);
    }
}

/// What the functions take that are called before the first message: a server in
/// order and, for the outcome of a launch, a service that starts on its own.
/// They leave the server in order.
pub proof fn lemma_beginning_keeps_order(
    server: &mut Server,
    files: Vec<(String, ServiceConfig)>,
    found: Option<u128>,
    config: ServiceConfig,
    id: u128,
    launched: Result<u64, String>,
    now: SystemTime,
    replaced: Option<u64>,
)
    requires
        in_order(*old(server)),
    ensures
        call_requires(Server::load, (server, files)),
        call_ensures(Server::load, (server, files), ()) ==> in_order(*final(server)),
        call_requires(Server::restore, (server, found, config)),
        call_ensures(Server::restore, (server, found, config), ()) ==> in_order(*final(server)),
        starts_on_its_own(*old(server), id) ==> call_requires(
            Server::auto_started,
            (server, id, launched, now),
        ),
        call_ensures(Server::auto_started, (server, id, launched, now), replaced) ==> in_order(
            *final(server),
        ),
{
    lemma_in_order(*old(server));
    lemma_in_order(*final(server));
    lemma_service_seen(*old(server), id);
}

/// A service that was never started is one with the given configuration.
pub proof fn lemma_service_from_config(id: u128, config: ServiceConfig, service: Service)
    requires
        call_ensures(Service::from_config, (id, config), service),
    ensures
        never_started(service, id),
        same_config(config, service.config),
{
    lemma_same_config(config, service.config);
    assert(service@.logs.len() == service.logs@.len());
}

/// After any attempted start of a service no end of its process is wanted. Where
/// the launch succeeded the service runs with the new process and an empty log,
/// and the process that it had is handed back; where it failed the start has
/// miscarried, the process stays, and the log holds the reason alone.
pub proof fn lemma_attempted_start(
    service: &mut Service,
    launched: Result<u64, String>,
    now: SystemTime,
    replaced: Option<u64>,
)
    requires
        call_ensures(Service::try_start, (service, Some(launched), now), replaced),
    ensures
        !final(service).stopping,
        final(service).id == old(service).id,
        same_config(old(service).config, final(service).config),
        launched matches Ok(process) ==> {
            &&& final(service).process == Some(process)
            &&& final(service).status == ServiceStatus::Running
            &&& final(service).logs@.len() == 0
            &&& replaced == old(service).process
        },
        launched matches Err(reason) ==> {
            &&& final(service).process == old(service).process
            &&& final(service).status == ServiceStatus::Miscarried
            &&& final(service).logs@.len() == 1
            &&& final(service).logs@[0].text@ == reason@
            &&& final(service).logs@[0].kind == LogKind::Error
            &&& final(service).logs@[0].time == now
            &&& replaced is None
        },
{
    lemma_same_config(old(service).config, final(service).config);
    assert(final(service)@.logs.len() == final(service).logs@.len());
    if launched is Err {
        assert(final(service)@.logs[0] == final(service).logs@[0]@);
    }
}

/// A start that is not attempted leaves the service as it is. It is attempted
/// unless the service is running or stopping.
pub proof fn lemma_start_where_possible(
    service: &mut Service,
    launched: Option<Result<u64, String>>,
    now: SystemTime,
    replaced: Option<u64>,
    attempted: bool,
)
    requires
        old(service).status == ServiceStatus::Running || old(service).status
            == ServiceStatus::Stopping || old(service).status == ServiceStatus::Paused ==> old(
            service,
        ).process is Some,
        old(service).status == ServiceStatus::Stopping ==> old(service).stopping,
        call_ensures(crate::service::can_start, (old(service).status,), attempted),
    ensures
        attempted == (old(service).status != ServiceStatus::Running && old(service).status
            != ServiceStatus::Stopping),
        launched is Some == attempted ==> call_requires(
            Service::try_start,
            (service, launched, now),
        ),
        call_ensures(Service::try_start, (service, None, now), replaced) ==> same_service(
            *old(service),
            *final(service),
        ) && replaced is None,
{
    if call_ensures(Service::try_start, (service, None, now), replaced) {
        lemma_same_service(*old(service), *final(service));
    }
}

/// A service whose process ended has none. It is down if its end was wanted and
/// dead if not.
pub proof fn lemma_exit(service: &mut Service, ended: Option<u64>)
    requires
        call_ensures(Service::exit, (service,), ended),
    ensures
        ended == old(service).process,
        final(service).process is None,
        old(service).stopping ==> final(service).status == ServiceStatus::Down,
        !old(service).stopping ==> final(service).status == ServiceStatus::Dead,
        final(service).id == old(service).id,
        final(service).stopping == old(service).stopping,
        same_log(old(service).logs@, final(service).logs@),
        same_config(old(service).config, final(service).config),
{
    lemma_same_config(old(service).config, final(service).config);
    lemma_same_log(*old(service), *final(service));
}

/// A line comes at the end of the log, and nothing else changes.
pub proof fn lemma_push_log(service: &mut Service, line: LogEntry)
    requires
        call_ensures(Service::push_log, (service, line), ()),
    ensures
        one_line_more(
            old(service).logs@,
            final(service).logs@,
            line.text@,
            line.kind,
            line.time,
        ),
        final(service).id == old(service).id,
        final(service).process == old(service).process,
        final(service).status == old(service).status,
        final(service).stopping == old(service).stopping,
        same_config(old(service).config, final(service).config),
{
    lemma_same_config(old(service).config, final(service).config);
    lemma_log_pushed(*old(service), *final(service), line@);
}

/// The process of a service that ends right after a successful start crashed:
/// the service is dead, and every client is told so, whatever was asked of the
/// service before the start.
pub proof fn lemma_crash_after_start_is_death(
    first: &mut Server,
    second: &mut Server,
    client: u128,
    id: u128,
    process: u64,
    now: SystemTime,
    later: SystemTime,
    started: Vec<Action>,
    crashed: Vec<Action>,
)
    requires
        old(first).services@.contains_key(id),
        call_ensures(
            Server::handle,
            (
                first,
                request(client, NetMessageC2S::StartService(id)),
                Some(Ok::<u64, String>(process)),
                now,
            ),
            started,
        ),
        *old(second) == *final(first),
        call_ensures(
            Server::handle,
            (second, ServerMessage::Process { id, message: ProcessMessage::Exit }, None, later),
            crashed,
        ),
    ensures
        is_in(*final(second), id, ServiceStatus::Dead),
        crashed@.len() == 2,
        crashed@[0] == (Action::Release { process }),
        tells_status(crashed@[1], *old(first), id, ServiceStatus::Dead),
{
    lemma_successful_start(first, client, id, process, now, started);
    lemma_end_of_process_is_told(second, id, None, later, crashed);
}

/// A service that ends after it was told to stop, or after its process was to be
/// killed, is down, and every client is told so.
pub proof fn lemma_end_on_request_is_down(
    first: &mut Server,
    second: &mut Server,
    client: u128,
    id: u128,
    process: u64,
    message: NetMessageC2S,
    now: SystemTime,
    later: SystemTime,
    asked: Vec<Action>,
    ended: Vec<Action>,
)
    requires
        is_in(*old(first), id, ServiceStatus::Running),
        old(first).services@[id].process == Some(process),
        message == NetMessageC2S::StopService(id) || message == NetMessageC2S::KillService(id),
        call_ensures(Server::handle, (first, request(client, message), None, now), asked),
        *old(second) == *final(first),
        call_ensures(
            Server::handle,
            (second, ServerMessage::Process { id, message: ProcessMessage::Exit }, None, later),
            ended,
        ),
    ensures
        is_in(*final(second), id, ServiceStatus::Down),
        ended@.len() == 2,
        ended@[0] == (Action::Release { process }),
        tells_status(ended@[1], *old(first), id, ServiceStatus::Down),
{
    if message == NetMessageC2S::StopService(id) {
        lemma_stop(first, client, id, process, None, now, asked);
    } else {
        lemma_kill(first, client, id, process, None, now, asked);
    }
    lemma_end_of_process_is_told(second, id, None, later, ended);
}

proof fn lemma_config_view(a: ServiceConfig, b: ServiceConfig)
    requires
        same_config(a, b),
    ensures
        a@ == b@,
{
    assert(a@.arguments.len() == a.arguments@.len());
    assert(b@.arguments.len() == b.arguments@.len());
    assert forall|i: int| 0 <= i < a@.arguments.len() implies a@.arguments[i]
        == b@.arguments[i] by {
        assert(a@.arguments[i] == a.arguments@[i]@);
        assert(b@.arguments[i] == b.arguments@[i]@);
    }
    assert(a@.arguments =~= b@.arguments);
}

/// The file is the one that the service of another server was saved to.
pub open spec fn saved_as(
    file: (String, ServiceConfig),
    saved: Server,
    id: u128,
) -> bool {
    &&& saved.services@.contains_key(id)
    &&& file.0@ == hyphenated(id)
    &&& same_config(saved.services@[id].config, file.1)
}

/// Services survive a restart: a server without services that reads the files of
/// another one has the same services as that one, each with its configuration
/// and none of them started.
pub proof fn lemma_services_survive_restart(
    server: &mut Server,
    files: Vec<(String, ServiceConfig)>,
    saved: Server,
    id: u128,
)
    requires
        call_ensures(Server::load, (server, files), ()),
        forall|other: u128| !(#[trigger] old(server).services@.contains_key(other)),
        forall|i: int|
            0 <= i < files@.len() ==> exists|other: u128|
                saved_as(#[trigger] files@[i], saved, other),
        forall|other: u128| #[trigger]
            saved.services@.contains_key(other) ==> exists|i: int|
                0 <= i < files@.len() && saved_as(#[trigger] files@[i], saved, other),
    ensures
        final(server).services@.contains_key(id) == saved.services@.contains_key(id),
        saved.services@.contains_key(id) ==> {
            &&& never_started(final(server).services@[id], id)
            &&& same_config(saved.services@[id].config, final(server).services@[id].config)
        },
{
    let views = file_views(files@);
    assert forall|i: int| 0 <= i < views.len() implies is_own_file(saved@, #[trigger] views[i]) by {
        assert(views[i] == (files@[i].0@, files@[i].1@));
        let other = choose|other: u128| saved_as(files@[i], saved, other);
        lemma_service_seen(saved, other);
        lemma_config_view(saved.services@[other].config, files@[i].1);
        assert(is_file_of(saved@, other, views[i]));
    }
    assert forall|other: u128| #[trigger] saved@.services.contains_key(other) implies views.contains(
        (hyphenated(other), saved@.services[other].config),
    ) by {
        lemma_service_seen(saved, other);
        let i = choose|i: int|
            0 <= i < files@.len() && saved_as(#[trigger] files@[i], saved, other);
        lemma_config_view(saved.services@[other].config, files@[i].1);
        assert(views[i] == (hyphenated(other), saved@.services[other].config));
    }
    assert forall|other: u128| !(#[trigger] old(server)@.services.contains_key(other)) by {
        lemma_service_seen(*old(server), other);
    }
    assert(old(server)@.services.dom() =~= Set::<u128>::empty());
    assert(saves(saved@, views));
    lemma_service_seen(saved, id);
    lemma_service_seen(*final(server), id);
    if saved.services@.contains_key(id) {
        let after = final(server).services@[id];
        lemma_same_config(saved.services@[id].config, after.config);
        assert(after@.logs.len() == after.logs@.len());
    }
}

} // verus!
