//! What holds of the server whatever messages it handles.

use crate::common::{LogEntryView, LogKind, NetMessageC2S, NetMessageS2CView, ServiceStatus};
use crate::model::{
    actions_by_client, enumerates, launch_requested, next, next_by_client, reacts, welcome,
    ActionView, ProcessMessage, ServerMessage, ServerView,
};
use crate::service::{startable, ServiceView};
use std::time::SystemTime;
use vstd::prelude::*;

verus! {

/// A message as the server handles it: with what a launch gave, where one was
/// requested, and with the time.
pub struct Step {
    pub message: ServerMessage,
    pub launched: Option<Result<u64, String>>,
    pub now: SystemTime,
}

/// The launch took place exactly where it was requested.
pub open spec fn step_allowed(state: ServerView, step: Step) -> bool {
    step.launched is Some == launch_requested(state, step.message)
}

/// The state after a step.
pub open spec fn after_step(state: ServerView, step: Step) -> ServerView {
    next(state, step.message, step.launched, step.now)
}

/// Whether these are the actions after a step.
pub open spec fn step_reacts(state: ServerView, step: Step, actions: Seq<ActionView>) -> bool {
    reacts(state, step.message, step.launched, step.now, actions)
}

/// The state after several steps.
pub open spec fn after_steps(state: ServerView, steps: Seq<Step>) -> ServerView
    decreases steps.len(),
{
    if steps.len() == 0 {
        state
    } else {
        after_step(after_steps(state, steps.drop_last()), steps.last())
    }
}

/// Each of several steps is allowed where it is taken.
pub open spec fn steps_allowed(state: ServerView, steps: Seq<Step>) -> bool
    decreases steps.len(),
{
    steps.len() == 0 || (steps_allowed(state, steps.drop_last()) && step_allowed(
        after_steps(state, steps.drop_last()),
        steps.last(),
    ))
}

/// A step keeps the server in order: a service that is running, stopping or
/// paused has a process, and one that is stopping remembers that it was told to.
pub proof fn lemma_step_keeps_order(state: ServerView, step: Step)
    requires
        state.wf(),
        step_allowed(state, step),
    ensures
        after_step(state, step).wf(),
{
}

/// The server is in order after any number of steps.
pub proof fn lemma_always_in_order(state: ServerView, steps: Seq<Step>)
    requires
        state.wf(),
        steps_allowed(state, steps),
    ensures
        after_steps(state, steps).wf(),
    decreases steps.len(),
{
    if steps.len() > 0 {
        lemma_always_in_order(state, steps.drop_last());
        lemma_step_keeps_order(after_steps(state, steps.drop_last()), steps.last());
    }
}

/// The service that a message is about, where it names one.
pub open spec fn subject(message: ServerMessage) -> Option<u128> {
    match message {
        ServerMessage::Process { id, .. } => Some(id),
        ServerMessage::ClientMessage { message, .. } => match message {
            NetMessageC2S::StartService(id) => Some(id),
            NetMessageC2S::StopService(id) => Some(id),
            NetMessageC2S::KillService(id) => Some(id),
            NetMessageC2S::PauseService(id) => Some(id),
            NetMessageC2S::UnpauseService(id) => Some(id),
            NetMessageC2S::MonitorLog(id) => Some(id),
            NetMessageC2S::UpdateServiceConfig { id, .. } => Some(id),
            NetMessageC2S::RemoveService(id) => Some(id),
            _ => None,
        },
        _ => None,
    }
}

/// The service that a message may change: the one that it is about or, for a
/// text to a service's input, the one whose log the client watches.
pub open spec fn target(state: ServerView, message: ServerMessage) -> Option<u128> {
    match message {
        ServerMessage::ClientMessage { client, message: NetMessageC2S::SendIn(_) } => {
            state.input_target(client)
        },
        _ => subject(message),
    }
}

/// The message configures a service.
pub open spec fn configures(message: ServerMessage) -> bool {
    message matches ServerMessage::ClientMessage {
        message: NetMessageC2S::UpdateServiceConfig { .. },
        ..
    }
}

/// A message about a service that does not exist changes nothing and leads to
/// nothing, unless it configures the service.
pub proof fn lemma_unknown_service_ignored(
    state: ServerView,
    step: Step,
    id: u128,
    actions: Seq<ActionView>,
)
    requires
        subject(step.message) == Some(id),
        !state.services.contains_key(id),
        !configures(step.message),
        step_reacts(state, step, actions),
    ensures
        after_step(state, step) == state,
        actions.len() == 0,
{
}

/// A message leaves every service alone but its target.
pub proof fn lemma_other_services_untouched(state: ServerView, step: Step, id: u128)
    requires
        target(state, step.message) != Some(id),
    ensures
        after_step(state, step).services.contains_key(id) == state.services.contains_key(id),
        state.services.contains_key(id) ==> after_step(state, step).services[id]
            == state.services[id],
{
}

/// A message from one client, or about its connection, leaves what the other
/// clients watch alone. What processes report changes nothing for any client.
pub proof fn lemma_other_clients_untouched(state: ServerView, step: Step, client: u128)
    requires
        match step.message {
            ServerMessage::Process { .. } => true,
            ServerMessage::ClientConnect(other) => other != client,
            ServerMessage::ClientMessage { client: other, .. } => other != client,
            ServerMessage::ClientDisconnect(other) => other != client,
        },
    ensures
        after_step(state, step).clients.contains_key(client) == state.clients.contains_key(client),
        state.clients.contains_key(client) ==> after_step(state, step).clients[client]
            == state.clients[client],
{
}

/// The request does not fit the state of the service: only a running service
/// can be stopped or paused, only a running or stopping one killed, only a
/// paused one resumed, and a running or stopping one cannot be removed.
pub open spec fn refused(state: ServerView, message: NetMessageC2S) -> bool {
    match message {
        NetMessageC2S::StopService(id) => !state.has_status(id, ServiceStatus::Running),
        NetMessageC2S::PauseService(id) => !state.has_status(id, ServiceStatus::Running),
        NetMessageC2S::UnpauseService(id) => !state.has_status(id, ServiceStatus::Paused),
        NetMessageC2S::KillService(id) => !state.has_status(id, ServiceStatus::Running)
            && !state.has_status(id, ServiceStatus::Stopping),
        NetMessageC2S::RemoveService(id) => state.has_status(id, ServiceStatus::Running)
            || state.has_status(id, ServiceStatus::Stopping),
        _ => false,
    }
}

/// A request that does not fit the state of its service changes nothing and
/// leads to nothing.
pub proof fn lemma_refused_request_ignored(
    state: ServerView,
    client: u128,
    message: NetMessageC2S,
    launched: Option<Result<u64, String>>,
    now: SystemTime,
)
    requires
        refused(state, message),
    ensures
        next_by_client(state, client, message, launched, now) == state,
        actions_by_client(state, client, message, launched, now).len() == 0,
{
}

/// A start of a service that is running or stopping changes nothing. It is
/// answered all the same: every client is told the state, and those that watch
/// the log are told to clear it.
pub proof fn lemma_second_start_changes_nothing(
    state: ServerView,
    client: u128,
    id: u128,
    now: SystemTime,
)
    requires
        state.services.contains_key(id),
        !startable(state.services[id].status),
    ensures
        next_by_client(state, client, NetMessageC2S::StartService(id), None, now) == state,
        actions_by_client(state, client, NetMessageC2S::StartService(id), None, now) == seq![
            state.broadcast_status(id, state.services[id].status),
            state.tell_observers(id, NetMessageS2CView::ClearLogs),
        ],
{
    assert(next_by_client(state, client, NetMessageC2S::StartService(id), None, now)
        =~~= state);
    assert(actions_by_client(state, client, NetMessageC2S::StartService(id), None, now) =~= seq![
        state.broadcast_status(id, state.services[id].status),
        state.tell_observers(id, NetMessageS2CView::ClearLogs),
    ]);
}

/// Resuming a service undoes pausing it.
pub proof fn lemma_unpause_undoes_pause(
    state: ServerView,
    client: u128,
    id: u128,
    launched: Option<Result<u64, String>>,
    now: SystemTime,
)
    requires
        state.has_status(id, ServiceStatus::Running),
    ensures
        next_by_client(state, client, NetMessageC2S::PauseService(id), launched, now).has_status(
            id,
            ServiceStatus::Paused,
        ),
        next_by_client(
            next_by_client(state, client, NetMessageC2S::PauseService(id), launched, now),
            client,
            NetMessageC2S::UnpauseService(id),
            launched,
            now,
        ) == state,
{
    assert(next_by_client(
        next_by_client(state, client, NetMessageC2S::PauseService(id), launched, now),
        client,
        NetMessageC2S::UnpauseService(id),
        launched,
        now,
    ) =~~= state);
}

/// Pausing a service undoes resuming it.
pub proof fn lemma_pause_undoes_unpause(
    state: ServerView,
    client: u128,
    id: u128,
    launched: Option<Result<u64, String>>,
    now: SystemTime,
)
    requires
        state.has_status(id, ServiceStatus::Paused),
    ensures
        next_by_client(state, client, NetMessageC2S::UnpauseService(id), launched, now).has_status(
            id,
            ServiceStatus::Running,
        ),
        next_by_client(
            next_by_client(state, client, NetMessageC2S::UnpauseService(id), launched, now),
            client,
            NetMessageC2S::PauseService(id),
            launched,
            now,
        ) == state,
{
    assert(next_by_client(
        next_by_client(state, client, NetMessageC2S::UnpauseService(id), launched, now),
        client,
        NetMessageC2S::PauseService(id),
        launched,
        now,
    ) =~~= state);
}

/// The message reports the end of the process of a service.
pub open spec fn reports_exit(message: ServerMessage, id: u128) -> bool {
    message == (ServerMessage::Process { id, message: ProcessMessage::Exit })
}

/// A service that is stopping stays so, whatever happens, until its process
/// ends. Then it is down.
pub proof fn lemma_stopping_until_exit(state: ServerView, steps: Seq<Step>, exit: Step, id: u128)
    requires
        state.wf(),
        state.has_status(id, ServiceStatus::Stopping),
        steps_allowed(state, steps),
        forall|i: int|
            0 <= i < steps.len() ==> !reports_exit((#[trigger] steps[i]).message, id),
        reports_exit(exit.message, id),
    ensures
        after_steps(state, steps).has_status(id, ServiceStatus::Stopping),
        after_step(after_steps(state, steps), exit).has_status(id, ServiceStatus::Down),
    decreases steps.len(),
{
    lemma_always_in_order(state, steps);
    if steps.len() > 0 {
        let before = steps.drop_last();
        assert forall|i: int| 0 <= i < before.len() implies !reports_exit(
            (#[trigger] before[i]).message,
            id,
        ) by {
            assert(before[i] == steps[i]);
        }
        lemma_stopping_until_exit(state, before, exit, id);
        lemma_always_in_order(state, before);
        assert(steps.last() == steps[steps.len() - 1]);
    }
}

/// A running service that is told to stop is stopping.
pub proof fn lemma_stop_leads_to_stopping(
    state: ServerView,
    client: u128,
    id: u128,
    launched: Option<Result<u64, String>>,
    now: SystemTime,
)
    requires
        state.has_status(id, ServiceStatus::Running),
    ensures
        next_by_client(state, client, NetMessageC2S::StopService(id), launched, now).has_status(
            id,
            ServiceStatus::Stopping,
        ),
{
}

/// A service whose process is killed on request is down once the process has
/// ended.
pub proof fn lemma_killed_service_ends_down(
    state: ServerView,
    client: u128,
    id: u128,
    exit: Step,
    launched: Option<Result<u64, String>>,
    now: SystemTime,
)
    requires
        state.services.contains_key(id),
        !startable(state.services[id].status),
        reports_exit(exit.message, id),
    ensures
        after_step(
            next_by_client(state, client, NetMessageC2S::KillService(id), launched, now),
            exit,
        ).has_status(id, ServiceStatus::Down),
{
}

/// A service whose process ends without being asked to is dead.
pub proof fn lemma_unasked_exit_is_death(state: ServerView, exit: Step, id: u128)
    requires
        state.services.contains_key(id),
        !state.services[id].stopping,
        reports_exit(exit.message, id),
    ensures
        after_step(state, exit).has_status(id, ServiceStatus::Dead),
{
}

/// A client asks for the end of the process of a service.
pub open spec fn asks_for_end(message: ServerMessage, id: u128) -> bool {
    message matches ServerMessage::ClientMessage { message, .. } && (message
        == NetMessageC2S::StopService(id) || message == NetMessageC2S::KillService(id))
}

/// No end of the process of a service is wanted unless a client asks for it.
pub proof fn lemma_end_unwanted_until_asked(state: ServerView, steps: Seq<Step>, id: u128)
    requires
        state.services.contains_key(id) ==> !state.services[id].stopping,
        forall|i: int|
            0 <= i < steps.len() ==> !asks_for_end((#[trigger] steps[i]).message, id),
    ensures
        after_steps(state, steps).services.contains_key(id) ==> !after_steps(
            state,
            steps,
        ).services[id].stopping,
    decreases steps.len(),
{
    if steps.len() > 0 {
        let before = steps.drop_last();
        assert forall|i: int| 0 <= i < before.len() implies !asks_for_end(
            (#[trigger] before[i]).message,
            id,
        ) by {
            assert(before[i] == steps[i]);
        }
        lemma_end_unwanted_until_asked(state, before, id);
        assert(steps.last() == steps[steps.len() - 1]);
    }
}

/// After any attempted start of a service, whether its launch succeeds or fails,
/// no end of its process is wanted. A process that ends after that, with no
/// request to stop or to kill it in between, leaves the service dead, whatever
/// else happens and whatever happened before the start.
pub proof fn lemma_unasked_end_after_start_is_death(
    state: ServerView,
    start: Step,
    steps: Seq<Step>,
    exit: Step,
    id: u128,
)
    requires
        state.services.contains_key(id),
        start.message matches ServerMessage::ClientMessage { message, .. } && message
            == NetMessageC2S::StartService(id),
        start.launched is Some,
        forall|i: int|
            0 <= i < steps.len() ==> !asks_for_end((#[trigger] steps[i]).message, id),
        after_steps(after_step(state, start), steps).services.contains_key(id),
        reports_exit(exit.message, id),
    ensures
        after_step(state, start).services.contains_key(id),
        !after_step(state, start).services[id].stopping,
        ({
            let ended = after_step(after_steps(after_step(state, start), steps), exit);
            &&& ended.services.contains_key(id)
            &&& ended.services[id].status == ServiceStatus::Dead
            &&& ended.services[id].process is None
        }),
{
    lemma_end_unwanted_until_asked(after_step(state, start), steps, id);
}

/// An end of the process that was asked for stays wanted until the service is
/// started again or removed: a process that ends before leaves the service down.
pub proof fn lemma_asked_end_is_down(
    state: ServerView,
    steps: Seq<Step>,
    exit: Step,
    id: u128,
)
    requires
        state.services.contains_key(id),
        state.services[id].stopping,
        forall|i: int|
            0 <= i < steps.len() ==> match (#[trigger] steps[i]).message {
                ServerMessage::ClientMessage { message, .. } => message
                    != NetMessageC2S::StartService(id) && message != NetMessageC2S::RemoveService(
                    id,
                ),
                _ => true,
            },
        reports_exit(exit.message, id),
    ensures
        after_steps(state, steps).services.contains_key(id),
        after_steps(state, steps).services[id].stopping,
        ({
            let ended = after_step(after_steps(state, steps), exit);
            &&& ended.services.contains_key(id)
            &&& ended.services[id].status == ServiceStatus::Down
            &&& ended.services[id].process is None
        }),
    decreases steps.len(),
{
    if steps.len() > 0 {
        let before = steps.drop_last();
        assert forall|i: int| 0 <= i < before.len() implies match (
        #[trigger] before[i]).message {
            ServerMessage::ClientMessage { message, .. } => message
                != NetMessageC2S::StartService(id) && message != NetMessageC2S::RemoveService(id),
            _ => true,
        } by {
            assert(before[i] == steps[i]);
        }
        lemma_asked_end_is_down(state, before, exit, id);
        assert(steps.last() == steps[steps.len() - 1]);
    }
}

/// A service that was removed and is configured again starts afresh.
pub proof fn lemma_removed_service_starts_afresh(
    state: ServerView,
    client: u128,
    id: u128,
    message: NetMessageC2S,
    launched: Option<Result<u64, String>>,
    now: SystemTime,
)
    requires
        state.services.contains_key(id),
        startable(state.services[id].status),
        message matches NetMessageC2S::UpdateServiceConfig { id: configured, .. } && configured
            == id,
    ensures
        !next_by_client(
            state,
            client,
            NetMessageC2S::RemoveService(id),
            launched,
            now,
        ).services.contains_key(id),
        next_by_client(
            next_by_client(state, client, NetMessageC2S::RemoveService(id), launched, now),
            client,
            message,
            launched,
            now,
        ).services[id] == ServiceView::fresh(id, message->UpdateServiceConfig_config@),
{
}

/// A log is never rewritten: a message leaves the log of a service as it is or
/// adds a line at its end. Only a start of the service that is attempted begins
/// a new log, which is empty or tells why the start failed.
pub proof fn lemma_logs_grow_until_start(state: ServerView, step: Step, id: u128)
    requires
        state.services.contains_key(id),
        after_step(state, step).services.contains_key(id),
        step_allowed(state, step),
    ensures
        ({
            let before = state.services[id].logs;
            let after = after_step(state, step).services[id].logs;
            if subject(step.message) == Some(id) && step.launched is Some {
                match step.launched->0 {
                    Ok(_) => after.len() == 0,
                    Err(reason) => after == seq![
                        LogEntryView { text: reason@, kind: LogKind::Error, time: step.now },
                    ],
                }
            } else {
                after == before || (after.len() == before.len() + 1 && after.drop_last() == before)
            }
        }),
{
    let before = state.services[id].logs;
    let after = after_step(state, step).services[id].logs;
    if after.len() == before.len() + 1 {
        assert(after.drop_last() =~= before || step.launched is Some);
    }
}

/// The process that an action is carried out on.
pub open spec fn process_of(action: ActionView) -> Option<u64> {
    match action {
        ActionView::Signal { process, .. } => Some(process),
        ActionView::Kill { process } => Some(process),
        ActionView::WriteInput { process, .. } => Some(process),
        ActionView::Release { process } => Some(process),
        _ => None,
    }
}

/// Some service has this process.
pub open spec fn held(state: ServerView, process: u64) -> bool {
    exists|id: u128| #[trigger]
        state.services.contains_key(id) && state.services[id].process == Some(process)
}

/// No two services have the same process.
pub open spec fn processes_distinct(state: ServerView) -> bool {
    forall|a: u128, b: u128| #[trigger]
        state.services.contains_key(a) && #[trigger] state.services.contains_key(b)
            && state.services[a].process is Some && state.services[a].process
            == state.services[b].process ==> a == b
}

/// A welcome is nothing but messages to the new client.
proof fn lemma_welcome_only_tells(state: ServerView, client: u128, order: Seq<u128>, i: int)
    requires
        0 <= i < welcome(state, client, order).len(),
    ensures
        welcome(state, client, order)[i] is Send,
        welcome(state, client, order)[i]->to == set![client],
    decreases order.len(),
{
    if order.len() > 0 {
        let before = welcome(state, client, order.drop_last());
        if i < before.len() {
            lemma_welcome_only_tells(state, client, order.drop_last(), i);
        }
    }
}

/// An action on a process concerns a process of the service that the message
/// is about.
pub proof fn lemma_actions_reach_own_process(
    state: ServerView,
    step: Step,
    actions: Seq<ActionView>,
    i: int,
)
    requires
        state.wf(),
        step_reacts(state, step, actions),
        0 <= i < actions.len(),
        process_of(actions[i]) is Some,
    ensures
        target(state, step.message) matches Some(id) && state.services.contains_key(id)
            && state.services[id].process == process_of(actions[i]),
{
    if let ServerMessage::ClientConnect(client) = step.message {
        let order = choose|order: Seq<u128>|
            enumerates(order, state.services.dom()) && actions == #[trigger] welcome(
                state,
                client,
                order,
            );
        lemma_welcome_only_tells(state, client, order, i);
    }
}

/// Only connected clients are told anything, besides the one that connects.
pub proof fn lemma_only_clients_are_told(
    state: ServerView,
    step: Step,
    actions: Seq<ActionView>,
    i: int,
    client: u128,
)
    requires
        step_reacts(state, step, actions),
        0 <= i < actions.len(),
        actions[i] matches ActionView::Send { to, .. } && to.contains(client),
    ensures
        state.clients.contains_key(client) || step.message == ServerMessage::ClientConnect(client),
{
    if let ServerMessage::ClientConnect(new) = step.message {
        let order = choose|order: Seq<u128>|
            enumerates(order, state.services.dom()) && actions == #[trigger] welcome(
                state,
                new,
                order,
            );
        lemma_welcome_only_tells(state, new, order, i);
    }
}

/// The service of this process lets it go: it ended, another one takes its
/// place, or the service is removed.
pub open spec fn lets_go(state: ServerView, step: Step, process: u64) -> bool {
    match step.message {
        ServerMessage::Process { id, message: ProcessMessage::Exit } => {
            state.services.contains_key(id) && state.services[id].process == Some(process)
        },
        ServerMessage::ClientMessage { message: NetMessageC2S::StartService(id), .. } => {
            state.services.contains_key(id) && state.services[id].process == Some(process)
                && step.launched matches Some(Ok(_))
        },
        ServerMessage::ClientMessage { message: NetMessageC2S::RemoveService(id), .. } => {
            state.services.contains_key(id) && state.services[id].process == Some(process)
                && startable(state.services[id].status)
        },
        _ => false,
    }
}

/// A process is released exactly when its service lets it go.
pub proof fn lemma_released_when_let_go(
    state: ServerView,
    step: Step,
    actions: Seq<ActionView>,
    process: u64,
)
    requires
        state.wf(),
        step_reacts(state, step, actions),
    ensures
        actions.contains(ActionView::Release { process }) == lets_go(state, step, process),
{
    let gone = ActionView::Release { process };
    if lets_go(state, step, process) {
        if let ServerMessage::ClientMessage { message: NetMessageC2S::RemoveService(_), .. } =
            step.message {
            assert(actions[1] == gone);
        } else {
            assert(actions[0] == gone);
        }
    } else if actions.contains(gone) {
        let i = actions.index_of(gone);
        assert(actions[i] == gone);
        lemma_actions_reach_own_process(state, step, actions, i);
    }
}

/// No process is forgotten and none is kept for nothing: as long as each new
/// process gets a handle of its own, the services have after a step exactly the
/// processes that they had before it and the one that was launched, without
/// those that are released.
pub proof fn lemma_processes_accounted_for(
    state: ServerView,
    step: Step,
    actions: Seq<ActionView>,
    process: u64,
)
    requires
        state.wf(),
        processes_distinct(state),
        step_allowed(state, step),
        step_reacts(state, step, actions),
        step.launched matches Some(Ok(new)) ==> !held(state, new),
    ensures
        processes_distinct(after_step(state, step)),
        held(after_step(state, step), process) == ((held(state, process) || step.launched == Some(
            Ok::<u64, String>(process),
        )) && !actions.contains(ActionView::Release { process })),
{
    let after = after_step(state, step);
    lemma_released_when_let_go(state, step, actions, process);
    if let Some(Ok(new)) = step.launched {
        if new == process {
            assert(after.services.contains_key(subject(step.message)->0));
        }
    }
    if held(state, process) {
        let id = choose|id: u128| #[trigger]
            state.services.contains_key(id) && state.services[id].process == Some(process);
        if !lets_go(state, step, process) {
            assert(after.services.contains_key(id));
            assert(after.services[id].process == Some(process));
        }
    }
    if held(after, process) {
        let id = choose|id: u128| #[trigger]
            after.services.contains_key(id) && after.services[id].process == Some(process);
        if step.launched != Some(Ok::<u64, String>(process)) {
            assert(state.services.contains_key(id));
            assert(state.services[id].process == Some(process));
        }
    }
}

} // verus!
