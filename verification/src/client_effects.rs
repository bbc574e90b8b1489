//! What the client does: what becomes of its selection, of what it knows, and
//! what each turn of its loop leads to.

use crate::client::{
    message_views, App, AppStateKind, AppStateServiceList, Event, KeyCode, KeyEventKind,
    MouseEventKind, ReplicaView, StateCall, Turn,
};
use crate::common::NetMessageS2C;
use crate::list::{Area, ListState};
use crate::server_effects::{lemma_same_config, same_config};
use vstd::prelude::*;

verus! {

broadcast use vstd::std_specs::hash::group_hash_axioms;

/// The user presses the key for the entry above, or scrolls up.
pub open spec fn goes_up(event: Event) -> bool {
    event == (Event::Key { kind: KeyEventKind::Press, code: KeyCode::Up }) || event
        == Event::Mouse(MouseEventKind::ScrollUp)
}

/// The user presses the key for the entry below, or scrolls down.
pub open spec fn goes_down(event: Event) -> bool {
    event == (Event::Key { kind: KeyEventKind::Press, code: KeyCode::Down }) || event
        == Event::Mouse(MouseEventKind::ScrollDown)
}

/// The user presses the key to leave.
pub open spec fn leaves(event: Event) -> bool {
    event == (Event::Key { kind: KeyEventKind::Press, code: KeyCode::Char('q') })
}

/// The second list is the first one with the next index selected: the first
/// entry where none was, and the largest index there is at most.
pub open spec fn one_down(before: ListState, after: ListState) -> bool {
    &&& after.offset == before.offset
    &&& after.selected is Some
    &&& before.selected is None ==> after.selected->0 == 0
    &&& before.selected matches Some(i) ==> if i == usize::MAX {
        after.selected->0 == usize::MAX
    } else {
        after.selected->0 == i + 1
    }
}

/// The second list is the first one with the previous index selected: the
/// largest index where none was, and the first entry at least.
pub open spec fn one_up(before: ListState, after: ListState) -> bool {
    &&& after.offset == before.offset
    &&& after.selected is Some
    &&& before.selected is None ==> after.selected->0 == usize::MAX
    &&& before.selected matches Some(i) ==> if i == 0 {
        after.selected->0 == 0
    } else {
        after.selected->0 == i - 1
    }
}

/// What an event does to the list: only the keys and the wheel for up and down
/// move the selection, by one.
pub open spec fn list_follows(before: ListState, event: Event, after: ListState) -> bool {
    &&& goes_up(event) ==> one_up(before, after)
    &&& goes_down(event) ==> one_down(before, after)
    &&& !goes_up(event) && !goes_down(event) ==> after == before
}

/// The list of the screen.
pub open spec fn list_of(state: AppStateKind) -> ListState {
    match state {
        AppStateKind::ServiceList(list) => list.list_state,
    }
}

/// Selecting the next entry goes one down.
pub proof fn lemma_select_next(list: &mut ListState)
    requires
        call_ensures(ListState::select_next, (list,), ()),
    ensures
        one_down(*old(list), *final(list)),
{
}

/// Selecting the previous entry goes one up.
pub proof fn lemma_select_previous(list: &mut ListState)
    requires
        call_ensures(ListState::select_previous, (list,), ()),
    ensures
        one_up(*old(list), *final(list)),
{
}

/// A list is made with its selection, and shown from its first entry on.
pub proof fn lemma_list_made(selected: Option<usize>, list: ListState)
    requires
        call_ensures(ListState::with_selected, (selected,), list),
    ensures
        list.selected == selected,
        list.offset == 0,
{
}

/// The list of services begins with its first entry selected.
pub proof fn lemma_list_begins_with_first_entry(list: AppStateServiceList)
    requires
        call_ensures(AppStateServiceList::new, (), list),
    ensures
        list.list_state.selected == Some(0usize),
        list.list_state.offset == 0,
{
}

/// An event moves the selection of the list of services by one or not at all,
/// and leaves the screen shown.
pub proof fn lemma_event_moves_selection(
    list: &mut AppStateServiceList,
    event: &Event,
    next_state: Option<AppStateKind>,
)
    requires
        call_ensures(AppStateServiceList::handle_event, (list, event), next_state),
    ensures
        list_follows(old(list).list_state, *event, final(list).list_state),
        next_state is None,
{
}

/// A message leaves the list of services alone.
pub proof fn lemma_message_leaves_list_alone(
    list: &mut AppStateServiceList,
    message: &NetMessageS2C,
    next_state: Option<AppStateKind>,
)
    requires
        call_ensures(AppStateServiceList::handle_message, (list, message), next_state),
    ensures
        final(list).list_state == old(list).list_state,
        next_state is None,
{
}

/// What drawing makes of a list with so many entries: in an empty area nothing;
/// without entries nothing is selected; else a selection beyond the last entry
/// becomes the last one, and the list is scrolled just so far that the selected
/// entry is shown.
pub open spec fn list_drawn(
    before: ListState,
    entries: int,
    area: Area,
    after: ListState,
) -> bool {
    let last = entries - 1;
    let first = if before.offset <= last {
        before.offset as int
    } else {
        last
    };
    if area.width == 0 || area.height == 0 {
        after == before
    } else if entries == 0 {
        after.selected is None && after.offset == 0
    } else {
        &&& after.selected is Some == before.selected is Some
        &&& before.selected is None ==> after.offset == first
        &&& before.selected matches Some(i) ==> {
            let entry = after.selected->0 as int;
            &&& i <= last ==> entry == i
            &&& i > last ==> entry == last
            &&& after.offset <= entry < after.offset + area.height
            &&& after.offset == first || (entry < first && after.offset == entry) || (entry
                >= first + area.height && after.offset + area.height == entry + 1)
        }
    }
}

/// Drawing a list keeps a selection, corrects it where it lies beyond the last
/// entry, and scrolls just so far that the selected entry is shown.
pub proof fn lemma_list_drawn(list: ListState, entries: nat, area: Area)
    requires
        entries <= usize::MAX,
    ensures
        list_drawn(list, entries as int, area, list.drawn(entries, area)),
{
}

/// A new client knows nothing, wants to stay, and shows the list of services
/// with its first entry selected.
pub proof fn lemma_new_client(app: App)
    requires
        call_ensures(App::new, (), app),
    ensures
        !app.exit,
        forall|id: u128| !(#[trigger] app.services@.contains_key(id)),
        forall|id: u128| !(#[trigger] app.statuses@.contains_key(id)),
        list_of(app.state) == (ListState { selected: Some(0), offset: 0 }),
{
    assert forall|id: u128| !(#[trigger] app.services@.contains_key(id)) by {
        assert(!app@.replica.services.contains_key(id));
    }
    assert forall|id: u128| !(#[trigger] app.statuses@.contains_key(id)) by {
        assert(!app@.replica.statuses.contains_key(id));
    }
}

/// The two clients know the same of the services.
pub open spec fn knows_the_same(before: App, after: App) -> bool {
    &&& after.statuses@ == before.statuses@
    &&& forall|id: u128| #![trigger after.services@.contains_key(id)]
        #![trigger before.services@.contains_key(id)]
        {
            &&& after.services@.contains_key(id) == before.services@.contains_key(id)
            &&& after.services@.contains_key(id) ==> same_config(
                before.services@[id],
                after.services@[id],
            )
        }
}

proof fn lemma_config_seen(app: App, id: u128)
    ensures
        app@.replica.services.contains_key(id) == app.services@.contains_key(id),
        app.services@.contains_key(id) ==> app@.replica.services[id] == app.services@[id]@,
{
}

proof fn lemma_knows_the_same(before: App, after: App)
    requires
        after@.replica == before@.replica,
    ensures
        knows_the_same(before, after),
{
    assert forall|id: u128| #![trigger after.services@.contains_key(id)]
        #![trigger before.services@.contains_key(id)]
        {
            &&& after.services@.contains_key(id) == before.services@.contains_key(id)
            &&& after.services@.contains_key(id) ==> same_config(
                before.services@[id],
                after.services@[id],
            )
        } by {
        lemma_config_seen(before, id);
        lemma_config_seen(after, id);
        if after.services@.contains_key(id) {
            lemma_same_config(before.services@[id], after.services@[id]);
        }
    }
}

/// The message says how a service is configured, or that it is gone.
pub open spec fn about_config(message: NetMessageS2C, id: u128) -> bool {
    (message matches NetMessageS2C::UpdateServiceConfig { id: told, .. } && told == id) || message
        == NetMessageS2C::RemoveService(id)
}

/// The message says where a service stands, or that it is gone.
pub open spec fn about_status(message: NetMessageS2C, id: u128) -> bool {
    (message matches NetMessageS2C::UpdateServiceStatus { id: told, .. } && told == id) || message
        == NetMessageS2C::RemoveService(id)
}

/// The last message about the configuration of a service decides what a client
/// knows of it: the configuration that it tells, or nothing if the service is
/// gone. Without one a client knows what it knew.
pub open spec fn config_by_last(
    before: App,
    messages: Seq<NetMessageS2C>,
    id: u128,
    after: App,
) -> bool {
    &&& (forall|i: int| 0 <= i < messages.len() ==> !about_config(#[trigger] messages[i], id)) ==> {
        &&& after.services@.contains_key(id) == before.services@.contains_key(id)
        &&& after.services@.contains_key(id) ==> same_config(
            before.services@[id],
            after.services@[id],
        )
    }
    &&& forall|last: int|
        0 <= last < messages.len() && about_config(#[trigger] messages[last], id) && (forall|
            i: int,
        |
            last < i < messages.len() ==> !about_config(#[trigger] messages[i], id)) ==> match messages[last] {
            NetMessageS2C::UpdateServiceConfig { config, .. } => after.services@.contains_key(id)
                && same_config(config, after.services@[id]),
            _ => !after.services@.contains_key(id),
        }
}

/// The last message about the state of a service decides what a client knows of
/// it, in the same way.
pub open spec fn status_by_last(
    before: App,
    messages: Seq<NetMessageS2C>,
    id: u128,
    after: App,
) -> bool {
    &&& (forall|i: int| 0 <= i < messages.len() ==> !about_status(#[trigger] messages[i], id)) ==> {
        &&& after.statuses@.contains_key(id) == before.statuses@.contains_key(id)
        &&& after.statuses@.contains_key(id) ==> after.statuses@[id] == before.statuses@[id]
    }
    &&& forall|last: int|
        0 <= last < messages.len() && about_status(#[trigger] messages[last], id) && (forall|
            i: int,
        |
            last < i < messages.len() ==> !about_status(#[trigger] messages[i], id)) ==> match messages[last] {
            NetMessageS2C::UpdateServiceStatus { status, .. } => after.statuses@.contains_key(id)
                && after.statuses@[id] == status,
            _ => !after.statuses@.contains_key(id),
        }
}

/// What messages teach of the configuration of a service. An index of -1 stands
/// for none about it.
proof fn lemma_config_learned(
    replica: ReplicaView,
    messages: Seq<NetMessageS2C>,
    id: u128,
    last: int,
)
    requires
        -1 <= last < messages.len(),
        last >= 0 ==> about_config(messages[last], id),
        forall|i: int| last < i < messages.len() ==> !about_config(#[trigger] messages[i], id),
    ensures
        ({
            let services = replica.learned_all(message_views(messages)).services;
            if last < 0 {
                &&& services.contains_key(id) == replica.services.contains_key(id)
                &&& services.contains_key(id) ==> services[id] == replica.services[id]
            } else {
                match messages[last] {
                    NetMessageS2C::UpdateServiceConfig { config, .. } => services.contains_key(id)
                        && services[id] == config@,
                    _ => !services.contains_key(id),
                }
            }
        }),
    decreases messages.len(),
{
    if messages.len() > 0 {
        let before = messages.drop_last();
        assert(message_views(messages).drop_last() =~= message_views(before));
        assert(message_views(messages).last() == messages.last()@);
        assert(messages.last() == messages[messages.len() - 1]);
        if last < messages.len() - 1 {
            assert forall|i: int| last < i < before.len() implies !about_config(
                #[trigger] before[i],
                id,
            ) by {
                assert(before[i] == messages[i]);
            }
            lemma_config_learned(replica, before, id, last);
        }
    }
}

/// What messages teach of the state of a service. An index of -1 stands for none
/// about it.
proof fn lemma_status_learned(
    replica: ReplicaView,
    messages: Seq<NetMessageS2C>,
    id: u128,
    last: int,
)
    requires
        -1 <= last < messages.len(),
        last >= 0 ==> about_status(messages[last], id),
        forall|i: int| last < i < messages.len() ==> !about_status(#[trigger] messages[i], id),
    ensures
        ({
            let statuses = replica.learned_all(message_views(messages)).statuses;
            if last < 0 {
                &&& statuses.contains_key(id) == replica.statuses.contains_key(id)
                &&& statuses.contains_key(id) ==> statuses[id] == replica.statuses[id]
            } else {
                match messages[last] {
                    NetMessageS2C::UpdateServiceStatus { status, .. } => statuses.contains_key(id)
                        && statuses[id] == status,
                    _ => !statuses.contains_key(id),
                }
            }
        }),
    decreases messages.len(),
{
    if messages.len() > 0 {
        let before = messages.drop_last();
        assert(message_views(messages).drop_last() =~= message_views(before));
        assert(message_views(messages).last() == messages.last()@);
        assert(messages.last() == messages[messages.len() - 1]);
        if last < messages.len() - 1 {
            assert forall|i: int| last < i < before.len() implies !about_status(
                #[trigger] before[i],
                id,
            ) by {
                assert(before[i] == messages[i]);
            }
            lemma_status_learned(replica, before, id, last);
        }
    }
}

proof fn lemma_by_last(before: App, messages: Seq<NetMessageS2C>, id: u128, after: App)
    requires
        after@.replica == before@.replica.learned_all(message_views(messages)),
    ensures
        config_by_last(before, messages, id, after),
        status_by_last(before, messages, id, after),
{
    lemma_config_seen(before, id);
    lemma_config_seen(after, id);
    if forall|i: int| 0 <= i < messages.len() ==> !about_config(#[trigger] messages[i], id) {
        lemma_config_learned(before@.replica, messages, id, -1);
        if after.services@.contains_key(id) {
            lemma_same_config(before.services@[id], after.services@[id]);
        }
    }
    assert forall|last: int|
        0 <= last < messages.len() && about_config(#[trigger] messages[last], id) && (forall|
            i: int,
        |
            last < i < messages.len() ==> !about_config(#[trigger] messages[i], id)) implies match messages[last] {
        NetMessageS2C::UpdateServiceConfig { config, .. } => after.services@.contains_key(id)
            && same_config(config, after.services@[id]),
        _ => !after.services@.contains_key(id),
    } by {
        lemma_config_learned(before@.replica, messages, id, last);
        if let NetMessageS2C::UpdateServiceConfig { config, .. } = messages[last] {
            lemma_same_config(config, after.services@[id]);
        }
    }
    if forall|i: int| 0 <= i < messages.len() ==> !about_status(#[trigger] messages[i], id) {
        lemma_status_learned(before@.replica, messages, id, -1);
    }
    assert forall|last: int|
        0 <= last < messages.len() && about_status(#[trigger] messages[last], id) && (forall|
            i: int,
        |
            last < i < messages.len() ==> !about_status(#[trigger] messages[i], id)) implies match messages[last] {
        NetMessageS2C::UpdateServiceStatus { status, .. } => after.statuses@.contains_key(id)
            && after.statuses@[id] == status,
        _ => !after.statuses@.contains_key(id),
    } by {
        lemma_status_learned(before@.replica, messages, id, last);
    }
}

/// What a client knows of a service after messages of the server is decided by
/// the last one about it. Messages move no selection and make no client leave.
pub proof fn lemma_last_message_counts(
    app: &mut App,
    messages: Vec<NetMessageS2C>,
    updated: bool,
    id: u128,
)
    requires
        call_ensures(App::handle_network, (app, messages), updated),
    ensures
        config_by_last(*old(app), messages@, id, *final(app)),
        status_by_last(*old(app), messages@, id, *final(app)),
        final(app).exit == old(app).exit,
        list_of(final(app).state) == list_of(old(app).state),
        updated == (messages@.len() > 0),
{
    lemma_by_last(*old(app), messages@, id, *final(app));
}

/// An event moves the selection and may make the client leave. It teaches the
/// client nothing of the services. Without one nothing changes.
pub proof fn lemma_event_taken_in(app: &mut App, event: Option<Event>, updated: bool)
    requires
        call_ensures(App::handle_events, (app, event), updated),
    ensures
        knows_the_same(*old(app), *final(app)),
        updated == event is Some,
        event is None ==> final(app).exit == old(app).exit && list_of(final(app).state)
            == list_of(old(app).state),
        event matches Some(event) ==> {
            &&& final(app).exit == (old(app).exit || leaves(event))
            &&& list_follows(list_of(old(app).state), event, list_of(final(app).state))
        },
{
    lemma_knows_the_same(*old(app), *final(app));
}

/// Another screen is shown where one is asked for. Nothing else changes.
pub proof fn lemma_screen_shown(app: &mut App, next_state: Option<AppStateKind>)
    requires
        call_ensures(App::show, (app, next_state), ()),
    ensures
        knows_the_same(*old(app), *final(app)),
        final(app).exit == old(app).exit,
        next_state is None ==> list_of(final(app).state) == list_of(old(app).state),
        next_state matches Some(state) ==> list_of(final(app).state) == list_of(state),
{
    lemma_knows_the_same(*old(app), *final(app));
}

/// The loop of the client begins by drawing, unless the client wants to leave.
pub proof fn lemma_first_turn(app: &App, turn: Turn)
    requires
        call_ensures(App::first_turn, (app,), turn),
    ensures
        turn is Exit == app.exit,
        turn is Draw == !app.exit,
{
}

/// A turn of the client's loop. A client that wanted to leave before it takes in
/// nothing. Another one takes in the event and the messages; it leaves if the
/// user pressed the key for it, draws if anything came, and else waits, with
/// nothing to draw: nothing changed.
pub proof fn lemma_turn(
    app: &mut App,
    event: Option<Event>,
    messages: Vec<NetMessageS2C>,
    turn: Turn,
    id: u128,
)
    requires
        call_ensures(App::run, (app, event, messages), turn),
    ensures
        turn is Exit == final(app).exit,
        turn is Draw == (!final(app).exit && (event is Some || messages@.len() > 0)),
        final(app).exit == (old(app).exit || (event is Some && leaves(event->0))),
        old(app).exit || turn is Wait ==> {
            &&& knows_the_same(*old(app), *final(app))
            &&& list_of(final(app).state) == list_of(old(app).state)
        },
        !old(app).exit ==> {
            &&& config_by_last(*old(app), messages@, id, *final(app))
            &&& status_by_last(*old(app), messages@, id, *final(app))
            &&& event is None ==> list_of(final(app).state) == list_of(old(app).state)
            &&& event matches Some(event) ==> list_follows(
                list_of(old(app).state),
                event,
                list_of(final(app).state),
            )
        },
{
    if old(app).exit {
        lemma_knows_the_same(*old(app), *final(app));
    } else {
        lemma_by_last(*old(app), messages@, id, *final(app));
        if turn is Wait {
            assert(message_views(messages@) =~= Seq::empty());
            lemma_knows_the_same(*old(app), *final(app));
        }
    }
}

/// What a screen is told of an event moves its selection; what it is told of a
/// message leaves it alone. Nothing else changes.
pub proof fn lemma_screen_is_told(app: &mut App, call: StateCall)
    requires
        call_ensures(App::with_state_ref, (app, call), ()),
    ensures
        knows_the_same(*old(app), *final(app)),
        final(app).exit == old(app).exit,
        match call {
            StateCall::Event(event) => list_follows(
                list_of(old(app).state),
                *event,
                list_of(final(app).state),
            ),
            StateCall::Message(_) => list_of(final(app).state) == list_of(old(app).state),
        },
{
    lemma_knows_the_same(*old(app), *final(app));
}

/// The list of services can be drawn in the area: no position in it is larger
/// than the largest there is.
pub open spec fn within_reach(area: Area) -> bool {
    area.x <= 65533 && (area.y + area.height <= 65535 || area.y <= 65532)
}

/// Drawing the list of services in an area within reach shows its three entries,
/// with a corrected selection among them. In another area the list is left
/// alone.
pub proof fn lemma_list_rendered(
    list: &mut AppStateServiceList,
    frame: &mut ratatui::Frame,
    area: Area,
    next_state: Option<AppStateKind>,
)
    requires
        call_ensures(AppStateServiceList::render_in, (list, frame, area), next_state),
    ensures
        next_state is None,
        within_reach(area) ==> list_drawn(
            old(list).list_state,
            3,
            area,
            final(list).list_state,
        ),
        !within_reach(area) ==> final(list).list_state == old(list).list_state,
{
    lemma_list_drawn(old(list).list_state, 3, area);
}

/// Drawing a list makes of it what is due with its entries.
pub proof fn lemma_entries_rendered(
    list: &mut ListState,
    frame: &mut ratatui::Frame,
    area: Area,
    entries: Vec<&str>,
    symbol: &str,
)
    requires
        call_ensures(ListState::render, (list, frame, area, entries, symbol), ()),
    ensures
        list_drawn(*old(list), entries.len() as int, area, *final(list)),
{
    assert(entries@.len() == entries.len());
    lemma_list_drawn(*old(list), entries@.len(), area);
}

/// What drawing the list of services makes of it, in an area within reach or in
/// another one.
pub open spec fn services_drawn(before: ListState, area: Area, after: ListState) -> bool {
    &&& within_reach(area) ==> list_drawn(before, 3, area, after)
    &&& !within_reach(area) ==> after == before
}

/// The list of services is drawn in the area that the frame has.
pub proof fn lemma_list_rendered_on_frame(
    list: &mut AppStateServiceList,
    frame: &mut ratatui::Frame,
    next_state: Option<AppStateKind>,
)
    requires
        call_ensures(AppStateServiceList::render, (list, frame), next_state),
    ensures
        next_state is None,
        exists|area: Area| services_drawn(old(list).list_state, area, final(list).list_state),
        old(list).list_state.selected is Some ==> final(list).list_state.selected is Some,
{
    let area = choose|area: Area| *final(list) == #[trigger] old(list).after_drawing(area);
    lemma_list_drawn(old(list).list_state, 3, area);
    assert(services_drawn(old(list).list_state, area, final(list).list_state));
}

/// Drawing the screen draws the list of services in the area that the frame has
/// and keeps a selection. It teaches the client nothing and makes it not leave.
pub proof fn lemma_screen_rendered(app: &mut App, frame: &mut ratatui::Frame)
    requires
        call_ensures(App::render, (app, frame), ()),
    ensures
        knows_the_same(*old(app), *final(app)),
        final(app).exit == old(app).exit,
        exists|area: Area|
            services_drawn(list_of(old(app).state), area, list_of(final(app).state)),
        list_of(old(app).state).selected is Some ==> list_of(final(app).state).selected is Some,
{
    lemma_knows_the_same(*old(app), *final(app));
    let area = choose|area: Area| final(app)@ == #[trigger] old(app)@.after_drawing(area);
    lemma_list_drawn(list_of(old(app).state), 3, area);
    assert(services_drawn(list_of(old(app).state), area, list_of(final(app).state)));
}

} // verus!
