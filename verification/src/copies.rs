//! What the server keeps in step with its own state: the files of
//! configurations, what each client knows of the services, and the log that a
//! client watches.

use crate::client::ReplicaView;
use crate::common::{LogEntryView, NetMessageC2S, NetMessageS2CView, ServiceConfigView};
use crate::ids::{hyphenated, lemma_file_names_differ, parsed_uuid};
use crate::laws::{after_step, after_steps, step_allowed, step_reacts, steps_allowed, Step};
use crate::model::{
    enumerates, is_file_of, is_own_file, loaded, release, replay, restarted, saves, tell, welcome, ActionView, FileView,
    ProcessMessage, ServerMessage, ServerView,
};
use crate::service::{startable, ServiceView};
use vstd::prelude::*;

verus! {

/// The files after an action, by their names.
pub open spec fn stored(
    files: Map<Seq<char>, ServiceConfigView>,
    action: ActionView,
) -> Map<Seq<char>, ServiceConfigView> {
    match action {
        ActionView::SaveConfig { file_name, config } => files.insert(file_name, config),
        ActionView::DeleteConfig { file_name } => files.remove(file_name),
        _ => files,
    }
}

/// The files after several actions.
pub open spec fn stored_all(
    files: Map<Seq<char>, ServiceConfigView>,
    actions: Seq<ActionView>,
) -> Map<Seq<char>, ServiceConfigView>
    decreases actions.len(),
{
    if actions.len() == 0 {
        files
    } else {
        stored(stored_all(files, actions.drop_last()), actions.last())
    }
}

/// Each service has a file with its configuration, and no other service has
/// one.
pub open spec fn files_match(
    state: ServerView,
    files: Map<Seq<char>, ServiceConfigView>,
) -> bool {
    forall|id: u128|
        {
            &&& files.contains_key(#[trigger] hyphenated(id)) == state.services.contains_key(id)
            &&& state.services.contains_key(id) ==> files[hyphenated(id)]
                == state.services[id].config
        }
}

/// The messages among these actions that go to a client.
pub open spec fn received(actions: Seq<ActionView>, client: u128) -> Seq<NetMessageS2CView>
    decreases actions.len(),
{
    if actions.len() == 0 {
        seq![]
    } else {
        let before = received(actions.drop_last(), client);
        match actions.last() {
            ActionView::Send { to, message } if to.contains(client) => before.push(message),
            _ => before,
        }
    }
}

/// A client knows the configuration of every service, and the state of each
/// service of which it knows a state.
pub open spec fn in_sync(state: ServerView, replica: ReplicaView) -> bool {
    &&& replica.services =~= state.services.map_values(|service: ServiceView| service.config)
    &&& forall|id: u128| #[trigger]
        replica.statuses.contains_key(id) ==> state.services.contains_key(id)
            && replica.statuses[id] == state.services[id].status
}

/// A client knows the configuration and the state of every service.
pub open spec fn fully_in_sync(state: ServerView, replica: ReplicaView) -> bool {
    &&& in_sync(state, replica)
    &&& replica.statuses.dom() =~= state.services.dom()
}

/// A copy of a log after a message of the server.
pub open spec fn copied(
    copy: Seq<LogEntryView>,
    message: NetMessageS2CView,
) -> Seq<LogEntryView> {
    match message {
        NetMessageS2CView::ClearLogs => seq![],
        NetMessageS2CView::AddLog(log) => copy.push(log),
        _ => copy,
    }
}

/// A copy of a log after several messages of the server.
pub open spec fn copied_all(
    copy: Seq<LogEntryView>,
    messages: Seq<NetMessageS2CView>,
) -> Seq<LogEntryView>
    decreases messages.len(),
{
    if messages.len() == 0 {
        copy
    } else {
        copied(copied_all(copy, messages.drop_last()), messages.last())
    }
}

/// What one more action does to the files, to what a client knows, and to its
/// copy of a log.
proof fn lemma_one_more(
    actions: Seq<ActionView>,
    action: ActionView,
    files: Map<Seq<char>, ServiceConfigView>,
    client: u128,
    replica: ReplicaView,
    copy: Seq<LogEntryView>,
)
    ensures
        stored_all(files, actions.push(action)) == stored(stored_all(files, actions), action),
        match action {
            ActionView::Send { to, message } if to.contains(client) => {
                &&& received(actions.push(action), client) == received(actions, client).push(
                    message,
                )
                &&& replica.learned_all(received(actions.push(action), client))
                    == replica.learned_all(received(actions, client)).learned(message)
                &&& copied_all(copy, received(actions.push(action), client)) == copied(
                    copied_all(copy, received(actions, client)),
                    message,
                )
            },
            _ => received(actions.push(action), client) == received(actions, client),
        },
{
    assert(actions.push(action).drop_last() =~= actions);
    if let ActionView::Send { to, message } = action {
        let before = received(actions, client);
        assert(before.push(message).drop_last() =~= before);
    }
}

/// Releasing a process concerns neither files nor clients.
proof fn lemma_release(
    process: Option<u64>,
    files: Map<Seq<char>, ServiceConfigView>,
    client: u128,
)
    ensures
        stored_all(files, release(process)) == files,
        received(release(process), client) == Seq::<NetMessageS2CView>::empty(),
{
    if let Some(process) = process {
        let released = seq![ActionView::Release { process }];
        assert(released.drop_last() =~= Seq::<ActionView>::empty());
        assert(stored_all(files, released.drop_last()) == files);
        assert(received(released.drop_last(), client) =~= Seq::<NetMessageS2CView>::empty());
    }
}

/// What a client knows after an action.
spec fn heard(replica: ReplicaView, action: ActionView, client: u128) -> ReplicaView {
    match action {
        ActionView::Send { to, message } if to.contains(client) => replica.learned(message),
        _ => replica,
    }
}

/// What a start of a service teaches a client, and what becomes of its copy of
/// a log.
proof fn lemma_start(
    state: ServerView,
    step: Step,
    id: u128,
    client: u128,
    replica: ReplicaView,
    copy: Seq<LogEntryView>,
    actions: Seq<ActionView>,
)
    requires
        step.message matches ServerMessage::ClientMessage {
            message: NetMessageC2S::StartService(started),
            ..
        } && started == id,
        state.services.contains_key(id),
        step_reacts(state, step, actions),
    ensures
        replica.learned_all(received(actions, client)) == heard(
            replica,
            state.broadcast_status(
                id,
                state.services[id].started(step.launched, step.now).status,
            ),
            client,
        ),
        copied_all(copy, received(actions, client)) == (if state.clients.contains_key(client)
            && state.clients[client] == Some(id) {
            seq![]
        } else {
            copy
        }),
{
    let files = Map::<Seq<char>, ServiceConfigView>::empty();
    let replaced = if step.launched matches Some(Ok(_)) {
        state.services[id].process
    } else {
        None
    };
    let first = release(replaced);
    let second = state.broadcast_status(
        id,
        state.services[id].started(step.launched, step.now).status,
    );
    let last = state.tell_observers(id, NetMessageS2CView::ClearLogs);
    lemma_release(replaced, files, client);
    lemma_one_more(first, second, files, client, replica, copy);
    lemma_one_more(first.push(second), last, files, client, replica, copy);
    assert(first.push(second).push(last) =~= actions);
}

/// What removing a service does to the files, and what it teaches a client.
proof fn lemma_removal(
    state: ServerView,
    step: Step,
    id: u128,
    files: Map<Seq<char>, ServiceConfigView>,
    client: u128,
    replica: ReplicaView,
    actions: Seq<ActionView>,
)
    requires
        step.message matches ServerMessage::ClientMessage {
            message: NetMessageC2S::RemoveService(removed),
            ..
        } && removed == id,
        state.services.contains_key(id),
        startable(state.services[id].status),
        step_reacts(state, step, actions),
    ensures
        stored_all(files, actions) == files.remove(hyphenated(id)),
        replica.learned_all(received(actions, client)) == heard(
            replica,
            state.broadcast(NetMessageS2CView::RemoveService(id)),
            client,
        ),
{
    let none = Seq::<ActionView>::empty();
    let first = ActionView::DeleteConfig { file_name: hyphenated(id) };
    let last = state.broadcast(NetMessageS2CView::RemoveService(id));
    lemma_one_more(none, first, files, client, replica, seq![]);
    match state.services[id].process {
        Some(process) => {
            let middle = ActionView::Release { process };
            lemma_one_more(none.push(first), middle, files, client, replica, seq![]);
            lemma_one_more(none.push(first).push(middle), last, files, client, replica, seq![]);
            assert(none.push(first).push(middle).push(last) =~= actions);
        },
        None => {
            lemma_one_more(none.push(first), last, files, client, replica, seq![]);
            assert(none.push(first).push(last) =~= actions);
        },
    }
}

/// Actions that neither write nor remove a file leave the files alone.
proof fn lemma_files_alone(files: Map<Seq<char>, ServiceConfigView>, actions: Seq<ActionView>)
    requires
        forall|i: int|
            0 <= i < actions.len() ==> !((#[trigger] actions[i]) is SaveConfig)
                && !(actions[i] is DeleteConfig),
    ensures
        stored_all(files, actions) == files,
    decreases actions.len(),
{
    if actions.len() > 0 {
        assert forall|i: int| 0 <= i < actions.drop_last().len() implies !((
        #[trigger] actions.drop_last()[i]) is SaveConfig) && !(
        actions.drop_last()[i] is DeleteConfig) by {
            assert(actions.drop_last()[i] == actions[i]);
        }
        lemma_files_alone(files, actions.drop_last());
    }
}

/// A message of a log.
pub open spec fn is_log_message(message: NetMessageS2CView) -> bool {
    message is ClearLogs || message is AddLog
}

/// The action sends a message of a log to a client.
pub open spec fn sends_log(action: ActionView, client: u128) -> bool {
    action matches ActionView::Send { to, message } && to.contains(client) && is_log_message(
        message,
    )
}

/// The action sends another message to a client.
pub open spec fn sends_news(action: ActionView, client: u128) -> bool {
    action matches ActionView::Send { to, message } && to.contains(client) && !is_log_message(
        message,
    )
}

/// A client to which nothing but messages of a log go learns nothing of the
/// services.
proof fn lemma_learns_nothing(actions: Seq<ActionView>, client: u128, replica: ReplicaView)
    requires
        forall|i: int|
            0 <= i < actions.len() ==> !sends_news(#[trigger] actions[i], client),
    ensures
        replica.learned_all(received(actions, client)) == replica,
    decreases actions.len(),
{
    if actions.len() > 0 {
        let before = actions.drop_last();
        assert forall|i: int| 0 <= i < before.len() implies !sends_news(
            #[trigger] before[i],
            client,
        ) by {
            assert(before[i] == actions[i]);
        }
        lemma_learns_nothing(before, client, replica);
        lemma_one_more(before, actions.last(), Map::empty(), client, replica, seq![]);
        assert(before.push(actions.last()) =~= actions);
        assert(actions.last() == actions[actions.len() - 1]);
    }
}

/// A client to which no message of a log goes keeps its copy.
proof fn lemma_copies_nothing(actions: Seq<ActionView>, client: u128, copy: Seq<LogEntryView>)
    requires
        forall|i: int|
            0 <= i < actions.len() ==> !sends_log(#[trigger] actions[i], client),
    ensures
        copied_all(copy, received(actions, client)) == copy,
    decreases actions.len(),
{
    if actions.len() > 0 {
        let before = actions.drop_last();
        assert forall|i: int| 0 <= i < before.len() implies !sends_log(
            #[trigger] before[i],
            client,
        ) by {
            assert(before[i] == actions[i]);
        }
        lemma_copies_nothing(before, client, copy);
        lemma_one_more(before, actions.last(), Map::empty(), client, ReplicaView::empty(), copy);
        assert(before.push(actions.last()) =~= actions);
        assert(actions.last() == actions[actions.len() - 1]);
    }
}

/// A client other than the new one receives nothing of a welcome.
proof fn lemma_welcome_for_others(
    state: ServerView,
    client: u128,
    order: Seq<u128>,
    other: u128,
)
    requires
        other != client,
    ensures
        received(welcome(state, client, order), other) == Seq::<NetMessageS2CView>::empty(),
    decreases order.len(),
{
    if order.len() > 0 {
        lemma_welcome_for_others(state, client, order.drop_last(), other);
        let id = order.last();
        let before = welcome(state, client, order.drop_last());
        let first = tell(
            client,
            NetMessageS2CView::UpdateServiceConfig { id, config: state.services[id].config },
        );
        let second = tell(
            client,
            NetMessageS2CView::UpdateServiceStatus { id, status: state.services[id].status },
        );
        lemma_one_more(before, first, Map::empty(), other, ReplicaView::empty(), seq![]);
        lemma_one_more(
            before.push(first),
            second,
            Map::empty(),
            other,
            ReplicaView::empty(),
            seq![],
        );
    }
}

/// A welcome writes and removes no file.
proof fn lemma_welcome_stores_nothing(
    state: ServerView,
    client: u128,
    order: Seq<u128>,
    files: Map<Seq<char>, ServiceConfigView>,
)
    ensures
        stored_all(files, welcome(state, client, order)) == files,
    decreases order.len(),
{
    if order.len() > 0 {
        lemma_welcome_stores_nothing(state, client, order.drop_last(), files);
        let id = order.last();
        let before = welcome(state, client, order.drop_last());
        let first = tell(
            client,
            NetMessageS2CView::UpdateServiceConfig { id, config: state.services[id].config },
        );
        let second = tell(
            client,
            NetMessageS2CView::UpdateServiceStatus { id, status: state.services[id].status },
        );
        lemma_one_more(before, first, files, client, ReplicaView::empty(), seq![]);
        lemma_one_more(before.push(first), second, files, client, ReplicaView::empty(), seq![]);
    }
}

/// What a new client learns from a part of its welcome.
proof fn lemma_welcome_teaches(state: ServerView, client: u128, order: Seq<u128>)
    ensures
        ({
            let replica = ReplicaView::empty().learned_all(
                received(welcome(state, client, order), client),
            );
            &&& forall|id: u128| #[trigger]
                replica.services.contains_key(id) <==> order.contains(id)
            &&& forall|id: u128| #[trigger]
                replica.statuses.contains_key(id) <==> order.contains(id)
            &&& forall|id: u128|
                order.contains(id) ==> #[trigger] replica.services[id] == state.services[id].config
            &&& forall|id: u128|
                order.contains(id) ==> #[trigger] replica.statuses[id] == state.services[id].status
        }),
    decreases order.len(),
{
    if order.len() > 0 {
        lemma_welcome_teaches(state, client, order.drop_last());
        let id = order.last();
        let before = welcome(state, client, order.drop_last());
        let first = tell(
            client,
            NetMessageS2CView::UpdateServiceConfig { id, config: state.services[id].config },
        );
        let second = tell(
            client,
            NetMessageS2CView::UpdateServiceStatus { id, status: state.services[id].status },
        );
        lemma_one_more(before, first, Map::empty(), client, ReplicaView::empty(), seq![]);
        lemma_one_more(
            before.push(first),
            second,
            Map::empty(),
            client,
            ReplicaView::empty(),
            seq![],
        );
        assert(order.drop_last().push(id) =~= order);
        assert forall|other: u128| #[trigger] order.contains(other) <==> other == id
            || order.drop_last().contains(other) by {
            vstd::seq_lib::lemma_seq_contains_after_push(order.drop_last(), id, other);
        }
    }
}

/// A client that connects learns the configuration and the state of every
/// service.
pub proof fn lemma_new_client_in_sync(
    state: ServerView,
    step: Step,
    actions: Seq<ActionView>,
    client: u128,
)
    requires
        step.message == ServerMessage::ClientConnect(client),
        step_reacts(state, step, actions),
    ensures
        fully_in_sync(
            after_step(state, step),
            ReplicaView::empty().learned_all(received(actions, client)),
        ),
{
    let order = choose|order: Seq<u128>|
        enumerates(order, state.services.dom()) && actions == #[trigger] welcome(
            state,
            client,
            order,
        );
    lemma_welcome_teaches(state, client, order);
    let replica = ReplicaView::empty().learned_all(received(actions, client));
    assert forall|id: u128| state.services.contains_key(id) == order.contains(id) by {
        assert(order.to_set().contains(id) == order.contains(id));
    }
    assert(replica.services =~= state.services.map_values(
        |service: ServiceView| service.config,
    ));
    assert(replica.statuses.dom() =~= state.services.dom());
}

/// The files keep in step with the services: after every message each service
/// has a file with its configuration, and no other service has one.
pub proof fn lemma_files_in_step(
    state: ServerView,
    step: Step,
    actions: Seq<ActionView>,
    files: Map<Seq<char>, ServiceConfigView>,
)
    requires
        files_match(state, files),
        step_reacts(state, step, actions),
    ensures
        files_match(after_step(state, step), stored_all(files, actions)),
{
    let after = after_step(state, step);
    let nobody = 0u128;
    let unknown = ReplicaView::empty();
    match step.message {
        ServerMessage::ClientConnect(client) => {
            let order = choose|order: Seq<u128>|
                enumerates(order, state.services.dom()) && actions == #[trigger] welcome(
                    state,
                    client,
                    order,
                );
            lemma_welcome_stores_nothing(state, client, order, files);
        },
        ServerMessage::ClientMessage {
            message: NetMessageC2S::UpdateServiceConfig { id, config },
            ..
        } => {
            let none = Seq::<ActionView>::empty();
            let first = actions[0];
            let second = actions[1];
            lemma_one_more(none, first, files, nobody, unknown, seq![]);
            lemma_one_more(none.push(first), second, files, nobody, unknown, seq![]);
            assert(none.push(first).push(second) =~= actions);
            assert forall|other: u128| #[trigger] hyphenated(other) == hyphenated(
                id,
            ) implies other == id by {
                lemma_file_names_differ(other, id);
            }
        },
        ServerMessage::ClientMessage { message: NetMessageC2S::RemoveService(id), .. } if (
        state.services.contains_key(id) && startable(state.services[id].status)) => {
            lemma_removal(state, step, id, files, nobody, unknown, actions);
            assert forall|other: u128| #[trigger] hyphenated(other) == hyphenated(
                id,
            ) implies other == id by {
                lemma_file_names_differ(other, id);
            }
        },
        _ => {
            lemma_files_alone(files, actions);
        },
    }
}

/// A connected client stays in step with the server: after every message it
/// knows the configuration of every service, and the state of each service of
/// which it knows a state. Of a service that is configured for the first time
/// it learns the state only with the next change of it.
pub proof fn lemma_client_stays_in_sync(
    state: ServerView,
    step: Step,
    actions: Seq<ActionView>,
    client: u128,
    replica: ReplicaView,
)
    requires
        state.clients.contains_key(client),
        in_sync(state, replica),
        step_reacts(state, step, actions),
        step.message != ServerMessage::ClientConnect(client),
        step.message != ServerMessage::ClientDisconnect(client),
    ensures
        in_sync(after_step(state, step), replica.learned_all(received(actions, client))),
{
    let after = after_step(state, step);
    let learned = replica.learned_all(received(actions, client));
    let files = Map::<Seq<char>, ServiceConfigView>::empty();
    let none = Seq::<ActionView>::empty();
    match step.message {
        ServerMessage::ClientConnect(other) => {
            let order = choose|order: Seq<u128>|
                enumerates(order, state.services.dom()) && actions == #[trigger] welcome(
                    state,
                    other,
                    order,
                );
            lemma_welcome_for_others(state, other, order, client);
        },
        ServerMessage::Process { id, message: ProcessMessage::Exit } if (
        state.services.contains_key(id)) => {
            let first = release(state.services[id].process);
            let last = state.broadcast_status(id, state.services[id].exited().status);
            lemma_release(state.services[id].process, files, client);
            lemma_one_more(first, last, files, client, replica, seq![]);
        },
        ServerMessage::ClientMessage { message, .. } => {
            match message {
                NetMessageC2S::StartService(id) if state.services.contains_key(id) => {
                    lemma_start(state, step, id, client, replica, seq![], actions);
                },
                NetMessageC2S::RemoveService(id) if (state.services.contains_key(id) && startable(
                    state.services[id].status,
                )) => {
                    lemma_removal(state, step, id, files, client, replica, actions);
                },
                NetMessageC2S::MonitorLog(_) => {
                    lemma_learns_nothing(actions, client, replica);
                },
                _ => {
                    if actions.len() == 1 {
                        lemma_one_more(none, actions[0], files, client, replica, seq![]);
                        assert(none.push(actions[0]) =~= actions);
                    } else if actions.len() == 2 {
                        lemma_one_more(none, actions[0], files, client, replica, seq![]);
                        lemma_one_more(
                            none.push(actions[0]),
                            actions[1],
                            files,
                            client,
                            replica,
                            seq![],
                        );
                        assert(none.push(actions[0]).push(actions[1]) =~= actions);
                    }
                },
            }
        },
        _ => {
            lemma_learns_nothing(actions, client, replica);
        },
    }
    assert(learned.services =~= after.services.map_values(
        |service: ServiceView| service.config,
    ));
}

/// What a client copies from a log that is sent to it from the beginning.
proof fn lemma_replay_copies(client: u128, logs: Seq<LogEntryView>, copy: Seq<LogEntryView>)
    ensures
        copied_all(
            copy,
            received(
                seq![tell(client, NetMessageS2CView::ClearLogs)] + replay(client, logs),
                client,
            ),
        ) == logs,
    decreases logs.len(),
{
    let files = Map::<Seq<char>, ServiceConfigView>::empty();
    let none = Seq::<ActionView>::empty();
    let clear = tell(client, NetMessageS2CView::ClearLogs);
    if logs.len() == 0 {
        lemma_one_more(none, clear, files, client, ReplicaView::empty(), copy);
        assert(none.push(clear) =~= seq![clear] + replay(client, logs));
        assert(logs =~= Seq::<LogEntryView>::empty());
    } else {
        let before = logs.drop_last();
        let line = tell(client, NetMessageS2CView::AddLog(logs.last()));
        lemma_replay_copies(client, before, copy);
        lemma_one_more(
            seq![clear] + replay(client, before),
            line,
            files,
            client,
            ReplicaView::empty(),
            copy,
        );
        assert((seq![clear] + replay(client, before)).push(line) =~= seq![clear] + replay(
            client,
            logs,
        ));
        assert(before.push(logs.last()) =~= logs);
    }
}

/// A client watches the log of a service, and its copy is the log.
pub open spec fn copy_true(
    state: ServerView,
    client: u128,
    id: u128,
    copy: Seq<LogEntryView>,
) -> bool {
    &&& state.clients.contains_key(client)
    &&& state.clients[client] == Some(id)
    &&& state.services.contains_key(id)
    &&& copy == state.services[id].logs
}

/// A client that begins to watch the log of a service has a true copy of it,
/// whatever it had before.
pub proof fn lemma_watching_begins_with_true_copy(
    state: ServerView,
    step: Step,
    actions: Seq<ActionView>,
    client: u128,
    id: u128,
    copy: Seq<LogEntryView>,
)
    requires
        step.message == (ServerMessage::ClientMessage {
            client,
            message: NetMessageC2S::MonitorLog(id),
        }),
        state.clients.contains_key(client),
        state.services.contains_key(id),
        step_reacts(state, step, actions),
    ensures
        copy_true(
            after_step(state, step),
            client,
            id,
            copied_all(copy, received(actions, client)),
        ),
{
    lemma_replay_copies(client, state.services[id].logs, copy);
}

/// The step is a start of the service that leaves lines in its log, as one that
/// fails does, and one that is not attempted while there are lines.
pub open spec fn starts_with_lines(state: ServerView, step: Step, id: u128) -> bool {
    step.message matches ServerMessage::ClientMessage {
        message: NetMessageC2S::StartService(started),
        ..
    } && started == id && after_step(state, step).services[id].logs.len() > 0
}

/// The copy that a client has of the log it watches stays true, as long as it
/// watches the log and the service exists. The one exception is a start of the
/// service that leaves lines in the log: the client is told to clear its copy
/// all the same.
pub proof fn lemma_copy_stays_true(
    state: ServerView,
    step: Step,
    actions: Seq<ActionView>,
    client: u128,
    id: u128,
    copy: Seq<LogEntryView>,
)
    requires
        copy_true(state, client, id, copy),
        step_allowed(state, step),
        step_reacts(state, step, actions),
        after_step(state, step).clients.contains_key(client),
        after_step(state, step).clients[client] == Some(id),
        after_step(state, step).services.contains_key(id),
        !starts_with_lines(state, step, id),
    ensures
        copy_true(
            after_step(state, step),
            client,
            id,
            copied_all(copy, received(actions, client)),
        ),
{
    let after = after_step(state, step);
    let files = Map::<Seq<char>, ServiceConfigView>::empty();
    let none = Seq::<ActionView>::empty();
    let unknown = ReplicaView::empty();
    match step.message {
        ServerMessage::ClientConnect(other) => {
            let order = choose|order: Seq<u128>|
                enumerates(order, state.services.dom()) && actions == #[trigger] welcome(
                    state,
                    other,
                    order,
                );
            lemma_welcome_for_others(state, other, order, client);
        },
        ServerMessage::Process { id: other, message: ProcessMessage::Log(_) } => {
            if state.services.contains_key(other) {
                lemma_one_more(none, actions[0], files, client, unknown, copy);
                assert(none.push(actions[0]) =~= actions);
            }
        },
        ServerMessage::ClientMessage { client: asking, message } => {
            match message {
                NetMessageC2S::StartService(other) if state.services.contains_key(other) => {
                    lemma_start(state, step, other, client, unknown, copy, actions);
                    if other == id {
                        assert(after.services[id].logs =~= Seq::<LogEntryView>::empty());
                    }
                },
                NetMessageC2S::SendIn(_) => {
                    if actions.len() == 2 {
                        lemma_one_more(none, actions[0], files, client, unknown, copy);
                        lemma_one_more(
                            none.push(actions[0]),
                            actions[1],
                            files,
                            client,
                            unknown,
                            copy,
                        );
                        assert(none.push(actions[0]).push(actions[1]) =~= actions);
                    }
                },
                NetMessageC2S::MonitorLog(other) => {
                    if asking == client && state.services.contains_key(other) {
                        lemma_replay_copies(client, state.services[id].logs, copy);
                    } else {
                        lemma_copies_nothing(actions, client, copy);
                    }
                },
                _ => {
                    lemma_copies_nothing(actions, client, copy);
                },
            }
        },
        _ => {
            lemma_copies_nothing(actions, client, copy);
        },
    }
}

/// The names of these files are read as what they were written for.
pub open spec fn names_read_back(files: Seq<FileView>) -> bool {
    forall|i: int, id: u128|
        0 <= i < files.len() && (#[trigger] files[i]).0 == #[trigger] hyphenated(id)
            ==> parsed_uuid(files[i].0) == Some(id)
}

/// A server that reads some of the files of another one has the services of
/// these files.
proof fn lemma_loaded_part(
    state: ServerView,
    start: ServerView,
    files: Seq<FileView>,
    n: int,
    id: u128,
)
    requires
        start.services.dom() =~= Set::<u128>::empty(),
        saves(state, files),
        names_read_back(files),
        0 <= n <= files.len(),
    ensures
        ({
            let anew = loaded(start, files.take(n));
            &&& anew.services.contains_key(id) ==> state.services.contains_key(id)
                && anew.services[id] == ServiceView::fresh(id, state.services[id].config)
            &&& state.services.contains_key(id) && files.take(n).contains(
                (hyphenated(id), state.services[id].config),
            ) ==> anew.services.contains_key(id)
        }),
    decreases n,
{
    if n > 0 {
        lemma_loaded_part(state, start, files, n - 1, id);
        let part = files.take(n);
        assert(part.drop_last() =~= files.take(n - 1));
        assert(part.last() == files[n - 1]);
        let file = files[n - 1];
        let owner = choose|owner: u128| is_file_of(state, owner, file);
        assert(parsed_uuid(file.0) == Some(owner));
        let own = (hyphenated(id), state.services[id].config);
        if part.contains(own) && !part.drop_last().contains(own) {
            assert(part.drop_last().push(part.last()) =~= part);
            vstd::seq_lib::lemma_seq_contains_after_push(part.drop_last(), part.last(), own);
            lemma_file_names_differ(id, owner);
        }
    }
}

/// A server that reads the files of another one has its services with their
/// configurations, none of them started.
pub(crate) proof fn lemma_restart(state: ServerView, start: ServerView, files: Seq<FileView>)
    requires
        start.services.dom() =~= Set::<u128>::empty(),
        saves(state, files),
        names_read_back(files),
    ensures
        restarted(state, loaded(start, files)),
{
    let anew = loaded(start, files);
    assert(files.take(files.len() as int) =~= files);
    assert forall|id: u128|
        {
            &&& #[trigger] anew.services.contains_key(id) == state.services.contains_key(id)
            &&& anew.services.contains_key(id) ==> anew.services[id] == ServiceView::fresh(
                id,
                state.services[id].config,
            )
        } by {
        lemma_loaded_part(state, start, files, files.len() as int, id);
    }
}

/// A file that is named after a service.
pub open spec fn is_named_after(
    files: Map<Seq<char>, ServiceConfigView>,
    id: u128,
    file: FileView,
) -> bool {
    files.contains_key(hyphenated(id)) && file == (hyphenated(id), files[hyphenated(id)])
}

/// This list holds the files that are named after a service, with what is in
/// them.
pub open spec fn lists(
    files: Map<Seq<char>, ServiceConfigView>,
    list: Seq<FileView>,
) -> bool {
    &&& forall|i: int|
        #![trigger list[i]]
        0 <= i < list.len() ==> exists|id: u128| is_named_after(files, id, list[i])
    &&& forall|id: u128|
        files.contains_key(#[trigger] hyphenated(id)) ==> list.contains(
            (hyphenated(id), files[hyphenated(id)]),
        )
}

/// As the files keep in step with the services, a list of the files is what a
/// server that is started anew needs to have the services again.
pub proof fn lemma_files_save_the_services(
    state: ServerView,
    files: Map<Seq<char>, ServiceConfigView>,
    list: Seq<FileView>,
)
    requires
        files_match(state, files),
        lists(files, list),
    ensures
        saves(state, list),
{
    assert forall|i: int| 0 <= i < list.len() implies is_own_file(state, #[trigger] list[i]) by {
        let id = choose|id: u128| is_named_after(files, id, list[i]);
        assert(is_file_of(state, id, list[i]));
    }
    assert forall|id: u128| #[trigger] state.services.contains_key(id) implies list.contains(
        (hyphenated(id), state.services[id].config),
    ) by {
        assert(files.contains_key(hyphenated(id)));
    }
}

/// These are the actions after each of several steps.
pub open spec fn steps_react(
    state: ServerView,
    steps: Seq<Step>,
    actions: Seq<Seq<ActionView>>,
) -> bool
    decreases steps.len(),
{
    &&& steps.len() == actions.len()
    &&& steps.len() > 0 ==> {
        &&& steps_react(state, steps.drop_last(), actions.drop_last())
        &&& step_reacts(after_steps(state, steps.drop_last()), steps.last(), actions.last())
    }
}

/// The files after the actions of several steps.
pub open spec fn stored_by_steps(
    files: Map<Seq<char>, ServiceConfigView>,
    actions: Seq<Seq<ActionView>>,
) -> Map<Seq<char>, ServiceConfigView>
    decreases actions.len(),
{
    if actions.len() == 0 {
        files
    } else {
        stored_all(stored_by_steps(files, actions.drop_last()), actions.last())
    }
}

/// What a client knows after the actions of several steps.
pub open spec fn learned_by_steps(
    replica: ReplicaView,
    actions: Seq<Seq<ActionView>>,
    client: u128,
) -> ReplicaView
    decreases actions.len(),
{
    if actions.len() == 0 {
        replica
    } else {
        learned_by_steps(replica, actions.drop_last(), client).learned_all(
            received(actions.last(), client),
        )
    }
}

/// None of these steps is about the connection of a client.
pub open spec fn connection_kept(steps: Seq<Step>, client: u128) -> bool {
    forall|i: int|
        0 <= i < steps.len() ==> (#[trigger] steps[i]).message != ServerMessage::ClientConnect(
            client,
        ) && steps[i].message != ServerMessage::ClientDisconnect(client)
}

/// However many messages the server handles, the files hold the configurations
/// of its services.
pub proof fn lemma_files_always_in_step(
    state: ServerView,
    steps: Seq<Step>,
    actions: Seq<Seq<ActionView>>,
    files: Map<Seq<char>, ServiceConfigView>,
)
    requires
        files_match(state, files),
        steps_react(state, steps, actions),
    ensures
        files_match(after_steps(state, steps), stored_by_steps(files, actions)),
    decreases steps.len(),
{
    if steps.len() > 0 {
        lemma_files_always_in_step(state, steps.drop_last(), actions.drop_last(), files);
        lemma_files_in_step(
            after_steps(state, steps.drop_last()),
            steps.last(),
            actions.last(),
            stored_by_steps(files, actions.drop_last()),
        );
    }
}

/// However many messages the server handles, a client that was in step with it
/// stays in step while its connection is kept.
pub proof fn lemma_client_always_in_sync(
    state: ServerView,
    steps: Seq<Step>,
    actions: Seq<Seq<ActionView>>,
    client: u128,
    replica: ReplicaView,
)
    requires
        state.clients.contains_key(client),
        in_sync(state, replica),
        steps_react(state, steps, actions),
        connection_kept(steps, client),
    ensures
        after_steps(state, steps).clients.contains_key(client),
        in_sync(after_steps(state, steps), learned_by_steps(replica, actions, client)),
    decreases steps.len(),
{
    if steps.len() > 0 {
        let before = steps.drop_last();
        assert(connection_kept(before, client)) by {
            assert forall|i: int| 0 <= i < before.len() implies (#[trigger] before[i]).message
                != ServerMessage::ClientConnect(client) && before[i].message
                != ServerMessage::ClientDisconnect(client) by {
                assert(before[i] == steps[i]);
            }
        }
        lemma_client_always_in_sync(state, before, actions.drop_last(), client, replica);
        assert(steps.last() == steps[steps.len() - 1]);
        lemma_client_stays_in_sync(
            after_steps(state, before),
            steps.last(),
            actions.last(),
            client,
            learned_by_steps(replica, actions.drop_last(), client),
        );
    }
}

/// The copy of a log after the actions of several steps.
pub open spec fn copied_by_steps(
    copy: Seq<LogEntryView>,
    actions: Seq<Seq<ActionView>>,
    client: u128,
) -> Seq<LogEntryView>
    decreases actions.len(),
{
    if actions.len() == 0 {
        copy
    } else {
        copied_all(
            copied_by_steps(copy, actions.drop_last(), client),
            received(actions.last(), client),
        )
    }
}

/// During these steps a client watches the log of a service that exists, and no
/// start of the service leaves lines in the log.
pub open spec fn keeps_watching(
    state: ServerView,
    steps: Seq<Step>,
    client: u128,
    id: u128,
) -> bool
    decreases steps.len(),
{
    let after = after_steps(state, steps);
    &&& after.clients.contains_key(client)
    &&& after.clients[client] == Some(id)
    &&& after.services.contains_key(id)
    &&& steps.len() > 0 ==> {
        &&& keeps_watching(state, steps.drop_last(), client, id)
        &&& !starts_with_lines(after_steps(state, steps.drop_last()), steps.last(), id)
    }
}

/// However many messages the server handles, the copy that a client has of the
/// log it watches stays true while it watches the log, the service exists and
/// no start of the service leaves lines in the log.
pub proof fn lemma_copy_always_true(
    state: ServerView,
    steps: Seq<Step>,
    actions: Seq<Seq<ActionView>>,
    client: u128,
    id: u128,
    copy: Seq<LogEntryView>,
)
    requires
        copy_true(state, client, id, copy),
        steps_allowed(state, steps),
        steps_react(state, steps, actions),
        keeps_watching(state, steps, client, id),
    ensures
        copy_true(
            after_steps(state, steps),
            client,
            id,
            copied_by_steps(copy, actions, client),
        ),
    decreases steps.len(),
{
    if steps.len() > 0 {
        lemma_copy_always_true(
            state,
            steps.drop_last(),
            actions.drop_last(),
            client,
            id,
            copy,
        );
        lemma_copy_stays_true(
            after_steps(state, steps.drop_last()),
            steps.last(),
            actions.last(),
            client,
            id,
            copied_by_steps(copy, actions.drop_last(), client),
        );
    }
}

} // verus!
